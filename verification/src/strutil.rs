use vstd::prelude::*;
use vstd::string::StrSliceExecFns;

verus! {

/// The characters of `s`, one per entry.
pub fn chars_of(s: &str) -> (r: Vec<char>)
    ensures
        r@ == s@,
{
    let n = s.unicode_len();
    let mut r: Vec<char> = Vec::new();
    let mut i: usize = 0;
    while i < n
        invariant
            n == s@.len(),
            i <= n,
            r@ == s@.take(i as int),
        decreases n - i,
    {
        let c = s.get_char(i);
        r.push(c);
        proof {
            assert(r@ =~= s@.take(i + 1));
        }
        i += 1;
    }
    proof {
        assert(r@ =~= s@);
    }
    r
}

/// The two strings hold the same characters.
pub fn str_eq(a: &str, b: &str) -> (r: bool)
    ensures
        r == (a@ == b@),
{
    let na = a.unicode_len();
    let nb = b.unicode_len();
    if na != nb {
        proof {
            assert(a@ != b@);
        }
        return false;
    }
    let mut i: usize = 0;
    while i < na
        invariant
            na == a@.len(),
            na == b@.len(),
            i <= na,
            forall|j: int| 0 <= j < i ==> a@[j] == b@[j],
        decreases na - i,
    {
        if a.get_char(i) != b.get_char(i) {
            return false;
        }
        i += 1;
    }
    proof {
        assert(a@ =~= b@);
    }
    true
}

/// The least index of `c` in `s`, or -1 when `c` does not occur.
pub open spec fn first_index_of(s: Seq<char>, c: char) -> int
    decreases s.len(),
{
    if s.len() == 0 {
        -1
    } else if s[0] == c {
        0
    } else {
        let r = first_index_of(s.skip(1), c);
        if r == -1 {
            -1
        } else {
            r + 1
        }
    }
}

/// A position holding `c` with no earlier occurrence is the first one.
pub proof fn lemma_first_index_of_at(s: Seq<char>, c: char, i: int)
    requires
        0 <= i < s.len(),
        s[i] == c,
        forall|j: int| 0 <= j < i ==> s[j] != c,
    ensures
        first_index_of(s, c) == i,
    decreases i,
{
    if i == 0 {
    } else {
        assert(forall|j: int| 0 <= j < i - 1 ==> s.skip(1)[j] == s[j + 1]);
        lemma_first_index_of_at(s.skip(1), c, i - 1);
    }
}

/// A character that occurs nowhere has no first occurrence.
pub proof fn lemma_first_index_of_absent(s: Seq<char>, c: char)
    requires
        forall|j: int| 0 <= j < s.len() ==> s[j] != c,
    ensures
        first_index_of(s, c) == -1,
    decreases s.len(),
{
    if s.len() > 0 {
        assert(forall|j: int| 0 <= j < s.len() - 1 ==> s.skip(1)[j] == s[j + 1]);
        lemma_first_index_of_absent(s.skip(1), c);
    }
}

/// The character is an ASCII decimal digit.
pub open spec fn is_digit_char(c: char) -> bool {
    48 <= c as u32 <= 57
}

/// The value of an ASCII decimal digit.
pub open spec fn digit_val(c: char) -> int {
    c as u32 - 48
}

/// The value of a string of decimal digits, most significant first.
pub open spec fn digits_val(s: Seq<char>) -> int
    decreases s.len(),
{
    if s.len() == 0 {
        0
    } else {
        digits_val(s.drop_last()) * 10 + digit_val(s.last())
    }
}

/// The digit part of an unsigned decimal literal: everything after one
/// optional leading plus sign.
pub open spec fn unsigned_body(s: Seq<char>) -> Seq<char> {
    if s.len() > 0 && s[0] == '+' {
        s.skip(1)
    } else {
        s
    }
}

/// `s` is a well-formed unsigned decimal that fits the platform word: an
/// optional plus sign, then at least one digit, with a value at most
/// `usize::MAX`.
pub open spec fn is_usize_string(s: Seq<char>) -> bool {
    &&& unsigned_body(s).len() >= 1
    &&& forall|j: int| 0 <= j < unsigned_body(s).len() ==> is_digit_char(#[trigger] unsigned_body(s)[j])
    &&& digits_val(unsigned_body(s)) <= usize::MAX
}

proof fn lemma_digits_val_nonneg(s: Seq<char>)
    requires
        forall|j: int| 0 <= j < s.len() ==> is_digit_char(#[trigger] s[j]),
    ensures
        digits_val(s) >= 0,
    decreases s.len(),
{
    if s.len() > 0 {
        assert(forall|j: int| 0 <= j < s.len() - 1 ==> s.drop_last()[j] == s[j]);
        lemma_digits_val_nonneg(s.drop_last());
    }
}

/// A prefix of a digit string never has a larger value than the whole.
proof fn lemma_digits_val_prefix_le(s: Seq<char>, i: int)
    requires
        forall|j: int| 0 <= j < s.len() ==> is_digit_char(#[trigger] s[j]),
        0 <= i <= s.len(),
    ensures
        digits_val(s.take(i)) <= digits_val(s),
    decreases s.len() - i,
{
    if i == s.len() {
        assert(s.take(i) =~= s);
    } else {
        assert(s.take(i + 1).drop_last() =~= s.take(i));
        assert(s.take(i + 1).last() == s[i]);
        assert(forall|j: int| 0 <= j < i ==> s.take(i)[j] == s[j]);
        lemma_digits_val_nonneg(s.take(i));
        assert(digits_val(s.take(i + 1)) == digits_val(s.take(i)) * 10 + digit_val(s[i]));
        lemma_digits_val_prefix_le(s, i + 1);
    }
}

/// Parses the characters `s[from..to]` as an unsigned decimal: one optional
/// plus sign, then digits.  Returns the value exactly when the slice is
/// well formed and the value fits the platform word.
pub fn parse_usize_range(s: &Vec<char>, from: usize, to: usize) -> (r: Option<usize>)
    requires
        from <= to <= s@.len(),
    ensures
        match r {
            Some(v) => is_usize_string(s@.subrange(from as int, to as int)) && v == digits_val(
                unsigned_body(s@.subrange(from as int, to as int)),
            ),
            None => !is_usize_string(s@.subrange(from as int, to as int)),
        },
{
    let ghost whole = s@.subrange(from as int, to as int);
    let mut start = from;
    if from < to && s[from] == '+' {
        start = from + 1;
    }
    let ghost body = unsigned_body(whole);
    proof {
        assert(body =~= s@.subrange(start as int, to as int));
    }
    if start == to {
        return None;
    }
    let mut acc: usize = 0;
    let mut i = start;
    while i < to
        invariant
            from <= start <= i <= to <= s@.len(),
            start < to,
            whole == s@.subrange(from as int, to as int),
            body == unsigned_body(whole),
            body == s@.subrange(start as int, to as int),
            forall|j: int| 0 <= j < i - start ==> is_digit_char(#[trigger] body[j]),
            acc == digits_val(body.take(i - start)),
        decreases to - i,
    {
        let c = s[i];
        let u = c as u32;
        proof {
            assert(body[i - start] == s@[i as int]);
            assert(body.take(i - start + 1).drop_last() =~= body.take(i - start));
            assert(body.take(i - start + 1).last() == body[i - start]);
        }
        if u < 48 || u > 57 {
            proof {
                assert(!is_digit_char(unsigned_body(whole)[i - start]));
                assert(!is_usize_string(whole));
            }
            return None;
        }
        let d = (u - 48) as usize;
        match acc.checked_mul(10) {
            Some(m) => {
                match m.checked_add(d) {
                    Some(v) => {
                        acc = v;
                    },
                    None => {
                        proof {
                            assert(digits_val(body.take(i - start + 1)) > usize::MAX);
                            lemma_digits_prefix_overflow(body, i - start + 1);
                            assert(!is_usize_string(whole)) by {
                                if forall|j: int|
                                    0 <= j < unsigned_body(whole).len() ==> is_digit_char(
                                        #[trigger] unsigned_body(whole)[j],
                                    ) {
                                    assert(forall|j: int|
                                        0 <= j < body.len() ==> is_digit_char(#[trigger] body[j]));
                                }
                            }
                        }
                        return None;
                    },
                }
            },
            None => {
                proof {
                    lemma_digits_val_nonneg(body.take(i - start));
                    assert(digits_val(body.take(i - start + 1)) > usize::MAX);
                    lemma_digits_prefix_overflow(body, i - start + 1);
                    assert(!is_usize_string(whole)) by {
                        if forall|j: int|
                            0 <= j < unsigned_body(whole).len() ==> is_digit_char(
                                #[trigger] unsigned_body(whole)[j],
                            ) {
                            assert(forall|j: int|
                                0 <= j < body.len() ==> is_digit_char(#[trigger] body[j]));
                        }
                    }
                }
                return None;
            },
        }
        i += 1;
    }
    proof {
        assert(body.take(to - start) =~= body);
    }
    Some(acc)
}

/// Once a prefix of the digits overflows, the whole string cannot be a
/// well-formed platform-word decimal (its known digits already push the
/// value past the bound, whatever follows).
proof fn lemma_digits_prefix_overflow(body: Seq<char>, k: int)
    requires
        0 <= k <= body.len(),
        forall|j: int| 0 <= j < k ==> is_digit_char(#[trigger] body[j]),
        digits_val(body.take(k)) > usize::MAX,
    ensures
        !(forall|j: int| 0 <= j < body.len() ==> is_digit_char(#[trigger] body[j])) || digits_val(
            body,
        ) > usize::MAX,
{
    if forall|j: int| 0 <= j < body.len() ==> is_digit_char(#[trigger] body[j]) {
        lemma_digits_val_prefix_le(body, k);
    }
}

} // verus!
