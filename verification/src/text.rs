//! Comparing bytes and text, and sorted sets of text.

use vstd::prelude::*;

verus! {

/// Whether `a` stands strictly before `b` in lexicographic byte order.
pub open spec fn bytes_before(a: Seq<u8>, b: Seq<u8>) -> bool
    decreases a.len(),
{
    if b.len() == 0 {
        false
    } else if a.len() == 0 {
        true
    } else if a[0] != b[0] {
        a[0] < b[0]
    } else {
        bytes_before(a.drop_first(), b.drop_first())
    }
}

/// Whether text `a` stands strictly before text `b`, compared by UTF-8 bytes.
pub open spec fn text_before(a: Seq<char>, b: Seq<char>) -> bool {
    bytes_before(vstd::utf8::encode_utf8(a), vstd::utf8::encode_utf8(b))
}

/// Byte order never puts a sequence before itself.
pub proof fn lemma_bytes_before_irreflexive(a: Seq<u8>)
    ensures
        !bytes_before(a, a),
    decreases a.len(),
{
    if a.len() > 0 {
        lemma_bytes_before_irreflexive(a.drop_first());
    }
}

/// Byte order is transitive.
pub proof fn lemma_bytes_before_transitive(a: Seq<u8>, b: Seq<u8>, c: Seq<u8>)
    requires
        bytes_before(a, b),
        bytes_before(b, c),
    ensures
        bytes_before(a, c),
    decreases a.len(),
{
    if a.len() > 0 && b.len() > 0 && c.len() > 0 && a[0] == b[0] && b[0] == c[0] {
        lemma_bytes_before_transitive(a.drop_first(), b.drop_first(), c.drop_first());
    }
}

/// Of two different byte sequences one stands before the other.
pub proof fn lemma_bytes_before_total(a: Seq<u8>, b: Seq<u8>)
    ensures
        a == b || bytes_before(a, b) || bytes_before(b, a),
    decreases a.len(),
{
    if a.len() > 0 && b.len() > 0 && a[0] == b[0] {
        lemma_bytes_before_total(a.drop_first(), b.drop_first());
        if a.drop_first() == b.drop_first() {
            assert(a =~= seq![a[0]] + a.drop_first());
            assert(b =~= seq![b[0]] + b.drop_first());
        }
    } else if a.len() == 0 && b.len() == 0 {
        assert(a =~= b);
    }
}

/// Two byte sequences never stand before each other both ways.
pub proof fn lemma_bytes_before_asymmetric(a: Seq<u8>, b: Seq<u8>)
    requires
        bytes_before(a, b),
    ensures
        !bytes_before(b, a),
        a != b,
{
    if bytes_before(b, a) {
        lemma_bytes_before_transitive(a, b, a);
    }
    lemma_bytes_before_irreflexive(a);
}

/// Different texts have different UTF-8 bytes.
pub proof fn lemma_utf8_injective(a: Seq<char>, b: Seq<char>)
    requires
        vstd::utf8::encode_utf8(a) == vstd::utf8::encode_utf8(b),
    ensures
        a == b,
{
    vstd::utf8::encode_utf8_decode_utf8(a);
    vstd::utf8::encode_utf8_decode_utf8(b);
}

/// Text order is a strict total order.
pub proof fn lemma_text_order(a: Seq<char>, b: Seq<char>, c: Seq<char>)
    ensures
        !text_before(a, a),
        text_before(a, b) ==> !text_before(b, a) && a != b,
        text_before(a, b) && text_before(b, c) ==> text_before(a, c),
        a == b || text_before(a, b) || text_before(b, a),
{
    let ea = vstd::utf8::encode_utf8(a);
    let eb = vstd::utf8::encode_utf8(b);
    let ec = vstd::utf8::encode_utf8(c);
    lemma_bytes_before_irreflexive(ea);
    if bytes_before(ea, eb) {
        lemma_bytes_before_asymmetric(ea, eb);
        if bytes_before(eb, ec) {
            lemma_bytes_before_transitive(ea, eb, ec);
        }
    }
    lemma_bytes_before_total(ea, eb);
    if ea == eb {
        lemma_utf8_injective(a, b);
    }
}

/// Report whether two byte slices hold the same bytes.
pub fn bytes_eq(a: &[u8], b: &[u8]) -> (equal: bool)
    ensures
        equal == (a@ == b@),
{
    if a.len() != b.len() {
        return false;
    }
    let mut i: usize = 0;
    while i < a.len()
        invariant
            i <= a.len(),
            a.len() == b.len(),
            forall|j: int| 0 <= j < i ==> a@[j] == b@[j],
        decreases a.len() - i,
    {
        if a[i] != b[i] {
            return false;
        }
        i += 1;
    }
    assert(a@ =~= b@);
    true
}

/// Report whether `a` stands strictly before `b` in byte order.
pub fn bytes_less(a: &[u8], b: &[u8]) -> (less: bool)
    ensures
        less == bytes_before(a@, b@),
{
    let mut i: usize = 0;
    assert(a@.skip(0) =~= a@);
    assert(b@.skip(0) =~= b@);
    while i < a.len() && i < b.len() && a[i] == b[i]
        invariant
            i <= a.len(),
            i <= b.len(),
            bytes_before(a@, b@) == bytes_before(a@.skip(i as int), b@.skip(i as int)),
        decreases a.len() - i,
    {
        assert(a@.skip(i as int).drop_first() =~= a@.skip(i + 1));
        assert(b@.skip(i as int).drop_first() =~= b@.skip(i + 1));
        i += 1;
    }
    if i >= b.len() {
        return false;
    }
    if i >= a.len() {
        return true;
    }
    a[i] < b[i]
}

/// Copy a byte slice.
pub fn bytes_copy(a: &[u8]) -> (copy: Vec<u8>)
    ensures
        copy@ == a@,
{
    let mut copy: Vec<u8> = Vec::new();
    copy.extend_from_slice(a);
    assert(copy@ =~= a@);
    copy
}

/// Copy a range of bytes.
pub fn bytes_range(bytes: &[u8], start: usize, end: usize) -> (copy: Vec<u8>)
    requires
        start <= end <= bytes@.len(),
    ensures
        copy@ == bytes@.subrange(start as int, end as int),
{
    let mut copy: Vec<u8> = Vec::new();
    let mut i: usize = start;
    while i < end
        invariant
            start <= i <= end <= bytes@.len(),
            copy@ =~= bytes@.subrange(start as int, i as int),
        decreases end - i,
    {
        copy.push(bytes[i]);
        i += 1;
    }
    copy
}

/// Report whether two texts are equal.
pub fn text_eq(a: &str, b: &str) -> (equal: bool)
    ensures
        equal == (a@ == b@),
{
    let equal = bytes_eq(a.as_bytes(), b.as_bytes());
    proof {
        if equal {
            lemma_utf8_injective(a@, b@);
        }
    }
    equal
}

/// Report whether text `a` stands strictly before text `b`.
pub fn text_less(a: &str, b: &str) -> (less: bool)
    ensures
        less == text_before(a@, b@),
{
    bytes_less(a.as_bytes(), b.as_bytes())
}

/// Join two texts.
pub fn join_text(a: &str, b: &str) -> (joined: String)
    ensures
        joined@ == a@ + b@,
{
    let mut joined = a.to_owned();
    joined.append(b);
    joined
}

/// The decimal digits of `n`.
pub open spec fn decimal_text(n: nat) -> Seq<char>
    decreases n,
{
    if n < 10 {
        seq![('0' as int + n) as char]
    } else {
        decimal_text(n / 10) + seq![('0' as int + n % 10) as char]
    }
}

/// The last `width` decimal digits of `n`, padded with zeros on the left.
pub open spec fn padded_decimal_text(n: nat, width: nat) -> Seq<char>
    decreases width,
{
    if width == 0 {
        Seq::<char>::empty()
    } else {
        padded_decimal_text(n / 10, (width - 1) as nat) + seq![('0' as int + n % 10) as char]
    }
}

/// Return the text of one decimal digit.
fn digit_text(digit: u64) -> (text: &'static str)
    requires
        digit < 10,
    ensures
        text@ == seq![('0' as int + digit) as char],
{
    proof {
        reveal_strlit("0");
        reveal_strlit("1");
        reveal_strlit("2");
        reveal_strlit("3");
        reveal_strlit("4");
        reveal_strlit("5");
        reveal_strlit("6");
        reveal_strlit("7");
        reveal_strlit("8");
        reveal_strlit("9");
    }
    let text = if digit == 0 {
        "0"
    } else if digit == 1 {
        "1"
    } else if digit == 2 {
        "2"
    } else if digit == 3 {
        "3"
    } else if digit == 4 {
        "4"
    } else if digit == 5 {
        "5"
    } else if digit == 6 {
        "6"
    } else if digit == 7 {
        "7"
    } else if digit == 8 {
        "8"
    } else {
        "9"
    };
    assert(text@ =~= seq![('0' as int + digit) as char]);
    text
}

/// Render `n` in decimal.
pub fn decimal(n: u64) -> (text: String)
    ensures
        text@ == decimal_text(n as nat),
    decreases n,
{
    if n < 10 {
        return digit_text(n).to_owned();
    }
    let mut text = decimal(n / 10);
    text.append(digit_text(n % 10));
    text
}

/// The decimal text of an integer, with a sign where it is negative.
pub open spec fn signed_decimal_text(n: int) -> Seq<char> {
    if n < 0 {
        seq!['-'] + decimal_text((-n) as nat)
    } else {
        decimal_text(n as nat)
    }
}

/// Render `n` in decimal, with a sign where it is negative.
pub fn signed_decimal(n: i64) -> (text: String)
    ensures
        text@ == signed_decimal_text(n as int),
{
    if n >= 0 {
        return decimal(n as u64);
    }
    let magnitude: u64 = if n == i64::MIN {
        0x8000_0000_0000_0000
    } else {
        (-n) as u64
    };
    proof {
        reveal_strlit("-");
        assert("-"@ =~= seq!['-']);
    }
    join_text("-", decimal(magnitude).as_str())
}

/// Render the last `width` decimal digits of `n`, padded with zeros.
pub fn padded_decimal(n: u64, width: u64) -> (text: String)
    ensures
        text@ == padded_decimal_text(n as nat, width as nat),
    decreases width,
{
    if width == 0 {
        let text = String::new();
        assert(text@ =~= Seq::<char>::empty());
        return text;
    }
    let mut text = padded_decimal(n / 10, width - 1);
    text.append(digit_text(n % 10));
    text
}

/// Whether `needle` stands in `text` at position `at`.
pub open spec fn stands_at(text: Seq<char>, needle: Seq<char>, at: int) -> bool {
    0 <= at && at + needle.len() <= text.len() && text.subrange(at, at + needle.len()) == needle
}

/// Whether `needle` stands anywhere in `text`.
pub open spec fn holds_text(text: Seq<char>, needle: Seq<char>) -> bool {
    exists|at: int| #[trigger] stands_at(text, needle, at)
}

/// Collect the characters of a text.
fn collect_chars(text: &str) -> (chars: Vec<char>)
    ensures
        chars@ == text@,
{
    let mut chars: Vec<char> = Vec::new();
    for c in it: text.chars()
        invariant
            chars@ =~= it.seq().take(it.index() as int),
            it.seq() == text@,
    {
        chars.push(c);
    }
    chars
}

/// Report whether `needle` stands anywhere in `text`.
pub fn text_contains(text: &str, needle: &str) -> (found: bool)
    ensures
        found == holds_text(text@, needle@),
{
    let hay = collect_chars(text);
    let sought = collect_chars(needle);
    let n = sought.len();
    if n > hay.len() {
        return false;
    }
    let mut at: usize = 0;
    while at <= hay.len() - n
        invariant
            n == sought@.len(),
            n <= hay.len(),
            at <= hay.len() - n + 1,
            hay@ == text@,
            sought@ == needle@,
            forall|k: int| 0 <= k < at ==> !#[trigger] stands_at(text@, needle@, k),
        decreases hay@.len() + 1 - at,
    {
        let mut i: usize = 0;
        while i < n && hay[at + i] == sought[i]
            invariant
                i <= n,
                n == sought@.len(),
                at + n <= hay.len(),
                forall|k: int| 0 <= k < i ==> hay@[at + k] == #[trigger] sought@[k],
            decreases n - i,
        {
            i += 1;
        }
        if i == n {
            assert(hay@.subrange(at as int, at + n) =~= sought@);
            assert(stands_at(text@, needle@, at as int));
            return true;
        }
        proof {
            if stands_at(text@, needle@, at as int) {
                assert(hay@.subrange(at as int, at + n)[i as int] == sought@[i as int]);
            }
        }
        at += 1;
    }
    proof {
        assert forall|k: int| !#[trigger] stands_at(text@, needle@, k) by {
            if stands_at(text@, needle@, k) {
                assert(k < at);
            }
        }
    }
    false
}

/// Of two byte sequences one stands first exactly when it is the shorter part
/// of the other, or has the smaller byte where they first differ.
pub proof fn law_bytes_are_compared_where_they_first_differ(a: &[u8], b: &[u8], less: bool)
    requires
        call_ensures(bytes_less, (a, b), less),
    ensures
        less <==> (a@.len() < b@.len() && a@ == b@.take(a@.len() as int)) || exists|k: int|
            differs_upwards(a@, b@, k),
{
    lemma_first_difference(a@, b@);
}

/// Whether two byte sequences first differ at `k`, where `a` has the smaller byte.
pub open spec fn differs_upwards(a: Seq<u8>, b: Seq<u8>, k: int) -> bool {
    0 <= k < a.len() && k < b.len() && a.take(k) == b.take(k) && a[k] < b[k]
}

/// The first difference decides.
proof fn lemma_first_difference(a: Seq<u8>, b: Seq<u8>)
    ensures
        bytes_before(a, b) <==> (a.len() < b.len() && a == b.take(a.len() as int)) || exists|k: int|
            differs_upwards(a, b, k),
    decreases a.len(),
{
    if a.len() > 0 && b.len() > 0 {
        let x = a.drop_first();
        let y = b.drop_first();
        if a[0] == b[0] {
            lemma_first_difference(x, y);
            assert(a =~= seq![a[0]] + x);
            assert(b =~= seq![b[0]] + y);
            if x.len() < y.len() && x == y.take(x.len() as int) {
                assert(a =~= b.take(a.len() as int));
            }
            if a.len() < b.len() && a == b.take(a.len() as int) {
                assert forall|i: int| 0 <= i < x.len() implies #[trigger] x[i] == y[i] by {
                    assert(a[i + 1] == b.take(a.len() as int)[i + 1]);
                }
                assert(x =~= y.take(x.len() as int));
            }
            if exists|k: int| differs_upwards(x, y, k) {
                let k = choose|k: int| differs_upwards(x, y, k);
                assert forall|i: int| 0 <= i < k + 1 implies #[trigger] a[i] == b[i] by {
                    if i > 0 {
                        assert(x.take(k)[i - 1] == y.take(k)[i - 1]);
                    }
                }
                assert(a.take(k + 1) =~= b.take(k + 1));
                assert(differs_upwards(a, b, k + 1));
            }
            if exists|k: int| differs_upwards(a, b, k) {
                let k = choose|k: int| differs_upwards(a, b, k);
                assert(k > 0);
                assert forall|i: int| 0 <= i < k - 1 implies #[trigger] x[i] == y[i] by {
                    assert(a.take(k)[i + 1] == b.take(k)[i + 1]);
                }
                assert(x.take(k - 1) =~= y.take(k - 1));
                assert(differs_upwards(x, y, k - 1));
            }
        } else {
            if a[0] < b[0] {
                assert(a.take(0) =~= b.take(0));
                assert(differs_upwards(a, b, 0));
            }
            if exists|k: int| differs_upwards(a, b, k) {
                let k = choose|k: int| differs_upwards(a, b, k);
                if k > 0 {
                    assert(a.take(k)[0] == b.take(k)[0]);
                }
            }
            if a.len() < b.len() && a == b.take(a.len() as int) {
                assert(a[0] == b.take(a.len() as int)[0]);
            }
        }
    } else if b.len() > 0 {
        assert(a =~= b.take(0));
    }
}

/// A text holds another exactly when it is that other between two texts.
pub proof fn law_text_holds_what_it_is_made_of(text: &str, needle: &str, found: bool)
    requires
        call_ensures(text_contains, (text, needle), found),
    ensures
        found <==> exists|before: Seq<char>, after: Seq<char>|
            text@ == #[trigger] (before + needle@ + after),
{
    if found {
        let at = choose|at: int| #[trigger] stands_at(text@, needle@, at);
        let before = text@.take(at);
        let after = text@.skip(at + needle@.len());
        assert(text@ =~= before + needle@ + after);
    }
    if exists|before: Seq<char>, after: Seq<char>| text@ == #[trigger] (before + needle@ + after) {
        let (before, after) = choose|before: Seq<char>, after: Seq<char>|
            text@ == #[trigger] (before + needle@ + after);
        let at = before.len() as int;
        assert(text@.subrange(at, at + needle@.len()) =~= needle@);
        assert(stands_at(text@, needle@, at));
    }
}

/// The number that digits stand for.
pub open spec fn number_of(digits: Seq<char>) -> int
    decreases digits.len(),
{
    if digits.len() == 0 {
        0
    } else {
        10 * number_of(digits.drop_last()) + (digits.last() as int - '0' as int)
    }
}

/// Whether a text is made of digits alone.
pub open spec fn all_digits(text: Seq<char>) -> bool {
    forall|i: int| 0 <= i < text.len() ==> '0' <= #[trigger] text[i] <= '9'
}

/// The decimal text of a number reads as that number, has digits alone and no
/// zero in front; with a sign it reads as the number below zero.
pub proof fn law_decimal_text_reads_as_the_number(
    n: u64,
    text: String,
    signed: i64,
    signed_text: String,
)
    requires
        call_ensures(decimal, (n,), text),
        call_ensures(signed_decimal, (signed,), signed_text),
    ensures
        number_of(text@) == n,
        all_digits(text@),
        text@.len() > 0,
        n > 0 ==> text@[0] != '0',
        signed >= 0 ==> number_of(signed_text@) == signed && all_digits(signed_text@),
        signed < 0 ==> signed_text@.len() > 1 && signed_text@[0] == '-' && number_of(
            signed_text@.drop_first(),
        ) == -signed,
{
    lemma_decimal_reads(n as nat);
    if signed >= 0 {
        lemma_decimal_reads(signed as nat);
    } else {
        lemma_decimal_reads((-signed) as nat);
        assert(signed_text@.drop_first() =~= decimal_text((-signed) as nat));
    }
}

/// Decimal digits read as the number.
proof fn lemma_decimal_reads(n: nat)
    ensures
        number_of(decimal_text(n)) == n,
        all_digits(decimal_text(n)),
        decimal_text(n).len() > 0,
        n > 0 ==> decimal_text(n)[0] != '0',
    decreases n,
{
    let text = decimal_text(n);
    if n < 10 {
        assert(text.drop_last() =~= Seq::<char>::empty());
        assert(number_of(text.drop_last()) == 0);
    } else {
        let front = decimal_text(n / 10);
        lemma_decimal_reads(n / 10);
        assert(text.drop_last() =~= front);
        assert forall|i: int| 0 <= i < text.len() implies '0' <= #[trigger] text[i] <= '9' by {
            if i < front.len() {
                assert(text[i] == front[i]);
            }
        }
        assert(text[0] == front[0]);
    }
}

/// Padded digits are as many as asked for, and together with what stands before
/// them they read as the number: the last of them is its last digit and the
/// others are the padded digits of the rest.
pub proof fn law_padded_digits_fill_the_width(
    n: u64,
    width: u64,
    text: String,
    front: String,
)
    requires
        call_ensures(padded_decimal, (n, width), text),
        width > 0,
        call_ensures(padded_decimal, (n / 10, (width - 1) as u64), front),
    ensures
        text@.len() == width,
        all_digits(text@),
        text@.drop_last() == front@,
        text@.last() as int - '0' as int == n % 10,
{
    lemma_padded_digits(n as nat, width as nat);
    assert(text@.drop_last() =~= front@);
}

/// Padded digits are digits, and as many as asked for.
proof fn lemma_padded_digits(n: nat, width: nat)
    ensures
        padded_decimal_text(n, width).len() == width,
        all_digits(padded_decimal_text(n, width)),
    decreases width,
{
    if width > 0 {
        let front = padded_decimal_text(n / 10, (width - 1) as nat);
        let text = padded_decimal_text(n, width);
        lemma_padded_digits(n / 10, (width - 1) as nat);
        assert forall|i: int| 0 <= i < text.len() implies '0' <= #[trigger] text[i] <= '9' by {
            if i < front.len() {
                assert(text[i] == front[i]);
            }
        }
    }
}

/// Texts stand in the order of their encoded bytes: where these first differ, or
/// else by length.
pub proof fn law_texts_are_compared_by_their_bytes(
    a: &str,
    b: &str,
    less: bool,
    x: &[u8],
    y: &[u8],
    bytes: bool,
)
    requires
        call_ensures(text_less, (a, b), less),
        x@ == vstd::utf8::encode_utf8(a@),
        y@ == vstd::utf8::encode_utf8(b@),
        call_ensures(bytes_less, (x, y), bytes),
    ensures
        less == bytes,
        less <==> (x@.len() < y@.len() && x@ == y@.take(x@.len() as int)) || exists|k: int|
            differs_upwards(x@, y@, k),
{
    lemma_first_difference(x@, y@);
}

} // verus!
