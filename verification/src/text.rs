use vstd::prelude::*;
use vstd::string::StringSliceAdditionalSpecFns;
use vstd::utf8::encode_utf8_decode_utf8;

verus! {

/// Whether two strings hold the same characters.
pub fn same_text(a: &str, b: &str) -> (same: bool)
    ensures
        same == (a@ == b@),
{
    let x = a.as_bytes();
    let y = b.as_bytes();
    proof {
        encode_utf8_decode_utf8(a@);
        encode_utf8_decode_utf8(b@);
    }
    if x.len() != y.len() {
        return false;
    }
    let mut i: usize = 0;
    while i < x.len()
        invariant
            i <= x.len(),
            x.len() == y.len(),
            x@ == a.spec_bytes(),
            y@ == b.spec_bytes(),
            forall|j: int| 0 <= j < i ==> x@[j] == y@[j],
        decreases x.len() - i,
    {
        if x[i] != y[i] {
            return false;
        }
        i += 1;
    }
    proof {
        assert(x@ =~= y@);
    }
    true
}

/// The characters of `s`, in order.
pub fn chars_of(s: &str) -> (chars: Vec<char>)
    ensures
        chars@ == s@,
{
    let mut chars: Vec<char> = Vec::new();
    for c in it: s.chars()
        invariant
            it.seq() == s@,
            chars@ == s@.take(it.index() as int),
    {
        chars.push(c);
        proof {
            assert(s@.take(it.index() + 1) =~= s@.take(it.index() as int).push(c));
        }
    }
    proof {
        assert(s@.take(s@.len() as int) =~= s@);
    }
    chars
}

/// Whether `text` begins with `prefix`.
pub fn starts_with(text: &Vec<char>, prefix: &Vec<char>) -> (begins: bool)
    ensures
        begins == prefix@.is_prefix_of(text@),
{
    if prefix.len() > text.len() {
        return false;
    }
    let mut i: usize = 0;
    while i < prefix.len()
        invariant
            i <= prefix.len() <= text.len(),
            forall|j: int| 0 <= j < i ==> text@[j] == prefix@[j],
        decreases prefix.len() - i,
    {
        if text[i] != prefix[i] {
            assert(text@.subrange(0, prefix@.len() as int)[i as int] != prefix@[i as int]);
            return false;
        }
        i += 1;
    }
    assert(text@.subrange(0, prefix@.len() as int) =~= prefix@);
    true
}

/// The first place at or after `from` where `text` holds `wanted`: the
/// index of it, or none if there is no such place.
pub open spec fn spec_find(text: Seq<char>, wanted: char, from: int) -> Option<int>
    decreases text.len() - from,
{
    if from < 0 || from >= text.len() {
        None
    } else if text[from] == wanted {
        Some(from)
    } else {
        spec_find(text, wanted, from + 1)
    }
}

/// What `spec_find` finds is in range, holds `wanted`, and nothing before
/// it from `from` on does; it finds nothing only where nothing is.
pub proof fn lemma_find(text: Seq<char>, wanted: char, from: int)
    requires
        0 <= from,
    ensures
        match spec_find(text, wanted, from) {
            Some(at) => from <= at < text.len() && text[at] == wanted && forall|j: int|
                from <= j < at ==> text[j] != wanted,
            None => forall|j: int| from <= j < text.len() ==> text[j] != wanted,
        },
    decreases text.len() - from,
{
    if from < text.len() && text[from] != wanted {
        lemma_find(text, wanted, from + 1);
    }
}

/// The first place at or after `from` where `text` holds `wanted`.
pub fn find(text: &Vec<char>, wanted: char, from: usize) -> (found: Option<usize>)
    ensures
        match found {
            Some(at) => spec_find(text@, wanted, from as int) == Some(at as int),
            None => spec_find(text@, wanted, from as int).is_none(),
        },
{
    let mut i: usize = from;
    while i < text.len()
        invariant
            from <= i,
            spec_find(text@, wanted, from as int) == spec_find(text@, wanted, i as int),
        decreases text.len() - i,
    {
        if text[i] == wanted {
            return Some(i);
        }
        i += 1;
    }
    None
}

/// The character that writes the digit `digit`.
pub open spec fn digit_char(digit: int) -> char {
    if digit == 0 {
        '0'
    } else if digit == 1 {
        '1'
    } else if digit == 2 {
        '2'
    } else if digit == 3 {
        '3'
    } else if digit == 4 {
        '4'
    } else if digit == 5 {
        '5'
    } else if digit == 6 {
        '6'
    } else if digit == 7 {
        '7'
    } else if digit == 8 {
        '8'
    } else {
        '9'
    }
}

/// A natural number written in decimal, without leading zeros.
pub open spec fn spec_digits(n: nat) -> Seq<char>
    decreases n,
{
    if n < 10 {
        seq![digit_char(n as int)]
    } else {
        spec_digits(n / 10).push(digit_char((n % 10) as int))
    }
}

/// An integer written in decimal: a minus sign for a negative one, then the
/// digits.
pub open spec fn spec_decimal(n: int) -> Seq<char> {
    if n < 0 {
        seq!['-'] + spec_digits((-n) as nat)
    } else {
        spec_digits(n as nat)
    }
}

/// Calls `i128::to_string` of the standard library, which writes an integer
/// in decimal: a minus sign for a negative one, then the digits without
/// leading zeros. The contract says just that, through `spec_decimal`.
#[verifier::external_body]
pub(crate) fn decimal(n: i128) -> (text: String)
    ensures
        text@ == spec_decimal(n as int),
{
    n.to_string()
}

/// The character writes a digit.
pub open spec fn is_digit(c: char) -> bool {
    c == '0' || c == '1' || c == '2' || c == '3' || c == '4' || c == '5' || c == '6' || c == '7'
        || c == '8' || c == '9'
}

/// The digit that a character writes.
pub open spec fn digit_value(c: char) -> nat {
    if c == '0' {
        0
    } else if c == '1' {
        1
    } else if c == '2' {
        2
    } else if c == '3' {
        3
    } else if c == '4' {
        4
    } else if c == '5' {
        5
    } else if c == '6' {
        6
    } else if c == '7' {
        7
    } else if c == '8' {
        8
    } else {
        9
    }
}

/// The number that a row of digits writes.
pub open spec fn spec_value(digits: Seq<char>) -> nat
    decreases digits.len(),
{
    if digits.len() == 0 {
        0
    } else {
        spec_value(digits.drop_last()) * 10 + digit_value(digits.last())
    }
}

/// The decimal form of a number is a row of digits, not empty, that writes
/// that number.
pub proof fn lemma_digits(n: nat)
    ensures
        spec_digits(n).len() >= 1,
        forall|i: int| 0 <= i < spec_digits(n).len() ==> is_digit(#[trigger] spec_digits(n)[i]),
        spec_value(spec_digits(n)) == n,
    decreases n,
{
    if n < 10 {
        let one = seq![digit_char(n as int)];
        assert(one.drop_last() =~= Seq::<char>::empty());
        assert(spec_value(one.drop_last()) == 0);
        assert(one.last() == digit_char(n as int));
    } else {
        lemma_digits(n / 10);
        let all = spec_digits(n);
        assert(all.drop_last() =~= spec_digits(n / 10));
        assert(all.last() == digit_char((n % 10) as int));
    }
}

/// The decimal form of an integer holds digits and at most a minus sign in
/// front, and no two integers have the same.
pub proof fn lemma_decimal(a: int, b: int)
    ensures
        spec_decimal(a).len() >= 1,
        forall|i: int|
            0 <= i < spec_decimal(a).len() ==> is_digit(#[trigger] spec_decimal(a)[i])
                || spec_decimal(a)[i] == '-',
        spec_decimal(a) == spec_decimal(b) ==> a == b,
{
    let abs_a = if a < 0 {
        (-a) as nat
    } else {
        a as nat
    };
    let abs_b = if b < 0 {
        (-b) as nat
    } else {
        b as nat
    };
    lemma_digits(abs_a);
    lemma_digits(abs_b);
    if spec_decimal(a) == spec_decimal(b) {
        if a < 0 && b < 0 {
            let x = seq!['-'] + spec_digits(abs_a);
            let y = seq!['-'] + spec_digits(abs_b);
            assert(x.subrange(1, x.len() as int) =~= spec_digits(abs_a));
            assert(y.subrange(1, y.len() as int) =~= spec_digits(abs_b));
        } else if a < 0 {
            assert((seq!['-'] + spec_digits(abs_a))[0] == '-');
            assert(is_digit(spec_digits(abs_b)[0]));
        } else if b < 0 {
            assert((seq!['-'] + spec_digits(abs_b))[0] == '-');
            assert(is_digit(spec_digits(abs_a)[0]));
        }
    }
    assert forall|i: int| 0 <= i < spec_decimal(a).len() implies is_digit(
        #[trigger] spec_decimal(a)[i],
    ) || spec_decimal(a)[i] == '-' by {
        if a < 0 && i > 0 {
            assert(spec_decimal(a)[i] == spec_digits(abs_a)[i - 1]);
        }
    }
}

/// A text that is cut at the first `mark` can be cut in one way only: two
/// heads without `mark`, each followed by `mark` and a tail, make the same
/// text only if the heads are the same and the tails are.
pub proof fn lemma_cut_once(
    head: Seq<char>,
    tail: Seq<char>,
    other_head: Seq<char>,
    other_tail: Seq<char>,
    mark: char,
)
    requires
        head + seq![mark] + tail == other_head + seq![mark] + other_tail,
        forall|i: int| 0 <= i < head.len() ==> head[i] != mark,
        forall|i: int| 0 <= i < other_head.len() ==> other_head[i] != mark,
    ensures
        head == other_head,
        tail == other_tail,
{
    let text = head + seq![mark] + tail;
    let other = other_head + seq![mark] + other_tail;
    if head.len() < other_head.len() {
        assert(text[head.len() as int] == mark);
        assert(other[head.len() as int] == other_head[head.len() as int]);
    }
    if other_head.len() < head.len() {
        assert(other[other_head.len() as int] == mark);
        assert(text[other_head.len() as int] == head[other_head.len() as int]);
    }
    assert(head =~= other_head) by {
        assert forall|i: int| 0 <= i < head.len() implies head[i] == other_head[i] by {
            assert(text[i] == head[i]);
            assert(other[i] == other_head[i]);
        }
    }
    assert(tail =~= other_tail) by {
        assert(text.len() == other.len());
        assert forall|i: int| 0 <= i < tail.len() implies tail[i] == other_tail[i] by {
            assert(text[head.len() + 1 + i] == tail[i]);
            assert(other[head.len() + 1 + i] == other_tail[i]);
        }
    }
}

} // verus!
