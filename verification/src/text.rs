use vstd::prelude::*;
use vstd::string::StrSliceExecFns;

verus! {

// ---------------------------------------------------------------------------
// Characters
// ---------------------------------------------------------------------------

/// ASCII whitespace, the characters this library's trimming removes.
pub open spec fn is_space_char(c: char) -> bool {
    c == ' ' || c == '\t' || c == '\n' || c == '\r'
}

pub open spec fn is_digit_char(c: char) -> bool {
    48 <= c as u32 <= 57
}

pub open spec fn digit_of(c: char) -> int {
    c as u32 - 48
}

pub open spec fn all_digits(s: Seq<char>) -> bool {
    forall|k: int| 0 <= k < s.len() ==> is_digit_char(#[trigger] s[k])
}

/// The decimal digit `d` (0 to 9) as a character.
pub open spec fn digit_char(d: int) -> char {
    ((d + 48) as u8) as char
}

fn is_space(c: char) -> (r: bool)
    ensures
        r == is_space_char(c),
{
    c == ' ' || c == '\t' || c == '\n' || c == '\r'
}

pub fn is_digit_exec(c: char) -> (r: bool)
    ensures
        r == is_digit_char(c),
{
    let u = c as u32;
    48 <= u && u <= 57
}

// ---------------------------------------------------------------------------
// Building strings
// ---------------------------------------------------------------------------

/// Relies on the standard library's `String::push`: it appends the given
/// character at the end of the string.
pub assume_specification[ String::push ](s: &mut String, c: char)
    ensures
        final(s)@ == old(s)@.push(c),
;

// ---------------------------------------------------------------------------
// Trimming
// ---------------------------------------------------------------------------

pub open spec fn trim_start_spec(s: Seq<char>) -> Seq<char>
    decreases s.len(),
{
    if s.len() > 0 && is_space_char(s[0]) {
        trim_start_spec(s.drop_first())
    } else {
        s
    }
}

pub open spec fn trim_end_spec(s: Seq<char>) -> Seq<char>
    decreases s.len(),
{
    if s.len() > 0 && is_space_char(s.last()) {
        trim_end_spec(s.drop_last())
    } else {
        s
    }
}

/// `s` without leading and trailing ASCII whitespace.
pub open spec fn trim_spec(s: Seq<char>) -> Seq<char> {
    trim_end_spec(trim_start_spec(s))
}

proof fn lemma_trim_start_at(s: Seq<char>, i: int)
    requires
        0 <= i <= s.len(),
        forall|k: int| 0 <= k < i ==> is_space_char(#[trigger] s[k]),
        i < s.len() ==> !is_space_char(s[i]),
    ensures
        trim_start_spec(s) == s.subrange(i, s.len() as int),
    decreases i,
{
    if i == 0 {
        assert(s.subrange(0, s.len() as int) =~= s);
    } else {
        let t = s.drop_first();
        lemma_trim_start_at(t, i - 1);
        assert(t.subrange(i - 1, t.len() as int) =~= s.subrange(i, s.len() as int));
    }
}

proof fn lemma_trim_end_at(s: Seq<char>, j: int)
    requires
        0 <= j <= s.len(),
        forall|k: int| j <= k < s.len() ==> is_space_char(#[trigger] s[k]),
        j > 0 ==> !is_space_char(s[j - 1]),
    ensures
        trim_end_spec(s) == s.subrange(0, j),
    decreases s.len(),
{
    if j == s.len() {
        assert(s.subrange(0, j) =~= s);
    } else {
        let t = s.drop_last();
        lemma_trim_end_at(t, j);
        assert(t.subrange(0, j) =~= s.subrange(0, j));
    }
}

proof fn lemma_trim_at(s: Seq<char>, i: int, j: int)
    requires
        0 <= i <= j <= s.len(),
        forall|k: int| 0 <= k < i ==> is_space_char(#[trigger] s[k]),
        forall|k: int| j <= k < s.len() ==> is_space_char(#[trigger] s[k]),
        i < s.len() ==> !is_space_char(s[i]),
        i < j ==> !is_space_char(s[j - 1]),
    ensures
        trim_spec(s) == s.subrange(i, j),
{
    lemma_trim_start_at(s, i);
    let t = s.subrange(i, s.len() as int);
    lemma_trim_end_at(t, j - i);
    assert(t.subrange(0, j - i) =~= s.subrange(i, j));
}

/// `s` without leading and trailing ASCII whitespace.
pub fn trim(s: &str) -> (r: &str)
    ensures
        r@ == trim_spec(s@),
{
    let n = s.unicode_len();
    let mut i: usize = 0;
    loop
        invariant
            0 <= i <= n,
            n == s@.len(),
            forall|k: int| 0 <= k < i ==> is_space_char(#[trigger] s@[k]),
        ensures
            0 <= i <= n,
            forall|k: int| 0 <= k < i ==> is_space_char(#[trigger] s@[k]),
            i < n ==> !is_space_char(s@[i as int]),
        decreases n - i,
    {
        if i < n {
            if is_space(s.get_char(i)) {
                i += 1;
            } else {
                break ;
            }
        } else {
            break ;
        }
    }
    let mut j: usize = n;
    loop
        invariant
            i <= j <= n,
            n == s@.len(),
            forall|k: int| 0 <= k < i ==> is_space_char(#[trigger] s@[k]),
            i < n ==> !is_space_char(s@[i as int]),
            forall|k: int| j <= k < n ==> is_space_char(#[trigger] s@[k]),
        ensures
            i <= j <= n,
            forall|k: int| j <= k < n ==> is_space_char(#[trigger] s@[k]),
            i < j ==> !is_space_char(s@[j - 1]),
        decreases j,
    {
        if j > i {
            if is_space(s.get_char(j - 1)) {
                j -= 1;
            } else {
                break ;
            }
        } else {
            break ;
        }
    }
    proof {
        lemma_trim_at(s@, i as int, j as int);
    }
    s.substring_char(i, j)
}

/// `s` without leading ASCII whitespace.
pub fn trim_start(s: &str) -> (r: &str)
    ensures
        r@ == trim_start_spec(s@),
{
    let n = s.unicode_len();
    let mut i: usize = 0;
    loop
        invariant
            0 <= i <= n,
            n == s@.len(),
            forall|k: int| 0 <= k < i ==> is_space_char(#[trigger] s@[k]),
        ensures
            0 <= i <= n,
            forall|k: int| 0 <= k < i ==> is_space_char(#[trigger] s@[k]),
            i < n ==> !is_space_char(s@[i as int]),
        decreases n - i,
    {
        if i < n {
            if is_space(s.get_char(i)) {
                i += 1;
            } else {
                break ;
            }
        } else {
            break ;
        }
    }
    proof {
        lemma_trim_start_at(s@, i as int);
    }
    s.substring_char(i, n)
}

// ---------------------------------------------------------------------------
// Searching
// ---------------------------------------------------------------------------

/// Index of the first occurrence of `c` in `s`, if any.
pub open spec fn find_char(s: Seq<char>, c: char) -> Option<int>
    decreases s.len(),
{
    if s.len() == 0 {
        Option::None
    } else if s[0] == c {
        Option::Some(0)
    } else {
        match find_char(s.drop_first(), c) {
            Option::Some(i) => Option::Some(i + 1),
            Option::None => Option::None,
        }
    }
}

pub proof fn lemma_find_char_none(s: Seq<char>, c: char)
    requires
        forall|k: int| 0 <= k < s.len() ==> #[trigger] s[k] != c,
    ensures
        find_char(s, c) is None,
    decreases s.len(),
{
    if s.len() > 0 {
        lemma_find_char_none(s.drop_first(), c);
    }
}

pub proof fn lemma_find_char_some(s: Seq<char>, c: char, i: int)
    requires
        0 <= i < s.len(),
        s[i] == c,
        forall|k: int| 0 <= k < i ==> #[trigger] s[k] != c,
    ensures
        find_char(s, c) == Option::Some(i),
    decreases i,
{
    if i > 0 {
        lemma_find_char_some(s.drop_first(), c, i - 1);
    }
}

/// First occurrence of the character `c` in `s`.
pub fn find_char_in(s: &str, c: char) -> (r: Option<usize>)
    ensures
        match r {
            Option::Some(i) => i < s@.len() && s@[i as int] == c && find_char(s@, c)
                == Option::Some(i as int),
            Option::None => find_char(s@, c) is None,
        },
{
    let n = s.unicode_len();
    let mut i: usize = 0;
    loop
        invariant
            0 <= i <= n,
            n == s@.len(),
            forall|k: int| 0 <= k < i ==> #[trigger] s@[k] != c,
        ensures
            0 <= i <= n,
            forall|k: int| 0 <= k < i ==> #[trigger] s@[k] != c,
            i < n ==> s@[i as int] == c,
        decreases n - i,
    {
        if i < n {
            if s.get_char(i) == c {
                break ;
            } else {
                i += 1;
            }
        } else {
            break ;
        }
    }
    if i < n {
        proof {
            lemma_find_char_some(s@, c, i as int);
        }
        Some(i)
    } else {
        proof {
            lemma_find_char_none(s@, c);
        }
        None
    }
}

// ---------------------------------------------------------------------------
// Decimal numbers
// ---------------------------------------------------------------------------

/// Value of a sequence of decimal digit characters, most significant first.
pub open spec fn digits_val(s: Seq<char>) -> int
    decreases s.len(),
{
    if s.len() == 0 {
        0
    } else {
        digits_val(s.drop_last()) * 10 + digit_of(s.last())
    }
}

pub proof fn lemma_digits_val_nonneg(s: Seq<char>)
    requires
        all_digits(s),
    ensures
        digits_val(s) >= 0,
    decreases s.len(),
{
    if s.len() > 0 {
        assert(all_digits(s.drop_last())) by {
            assert(forall|k: int|
                0 <= k < s.len() - 1 ==> #[trigger] s.drop_last()[k] == s[k]);
        }
        lemma_digits_val_nonneg(s.drop_last());
    }
}

pub proof fn lemma_digits_val1(s: Seq<char>)
    requires
        s.len() == 1,
    ensures
        digits_val(s) == digit_of(s[0]),
{
    assert(s.drop_last() =~= Seq::<char>::empty());
    assert(digits_val(Seq::<char>::empty()) == 0);
}

pub proof fn lemma_digits_val2(s: Seq<char>)
    requires
        s.len() == 2,
    ensures
        digits_val(s) == digit_of(s[0]) * 10 + digit_of(s[1]),
{
    let p = s.drop_last();
    lemma_digits_val1(p);
    assert(p[0] == s[0]);
}

/// Extending a digit string to the right never lowers its value.
pub proof fn lemma_digits_val_prefix(s: Seq<char>, i: int)
    requires
        all_digits(s),
        0 <= i <= s.len(),
    ensures
        digits_val(s) >= digits_val(s.subrange(0, i)),
    decreases s.len() - i,
{
    if i < s.len() {
        let p = s.subrange(0, i);
        let q = s.subrange(0, i + 1);
        assert(q.drop_last() =~= p);
        lemma_digits_val_nonneg(p);
        assert(digits_val(q) == digits_val(p) * 10 + digit_of(s[i]));
        assert(digits_val(q) >= digits_val(p));
        lemma_digits_val_prefix(s, i + 1);
    } else {
        assert(s.subrange(0, i) =~= s);
    }
}

/// Reads a non-empty, all-digit string as a `u32`.
/// Returns `None` on an empty string, a non-digit character, or a value
/// that does not fit.
pub fn parse_u32_digits(s: &str) -> (r: Option<u32>)
    ensures
        match r {
            Option::Some(v) => s@.len() > 0 && all_digits(s@) && v as int == digits_val(s@),
            Option::None => s@.len() == 0 || !all_digits(s@) || digits_val(s@) > u32::MAX,
        },
{
    let n = s.unicode_len();
    if n == 0 {
        return None;
    }
    let mut acc: u64 = 0;
    let mut i: usize = 0;
    loop
        invariant_except_break
            all_digits(s@.subrange(0, i as int)),
            acc as int == digits_val(s@.subrange(0, i as int)),
            acc <= u32::MAX,
        invariant
            0 <= i <= n,
            n == s@.len(),
            n > 0,
        ensures
            i <= n,
            i == n && acc <= u32::MAX ==> all_digits(s@) && acc as int == digits_val(s@),
            i < n || acc > u32::MAX ==> !all_digits(s@) || digits_val(s@) > u32::MAX,
        decreases n - i,
    {
        if i == n {
            proof {
                assert(s@.subrange(0, n as int) =~= s@);
            }
            break ;
        }
        let c = s.get_char(i);
        if !is_digit_exec(c) {
            proof {
                assert(!is_digit_char(s@[i as int]));
            }
            break ;
        }
        let d: u64 = (c as u32 - 48) as u64;
        proof {
            assert(s@.subrange(0, i + 1).drop_last() =~= s@.subrange(0, i as int));
        }
        acc = acc * 10 + d;
        i += 1;
        if acc > u32::MAX as u64 {
            proof {
                lemma_digits_val_prefix_helper(s@, i as int, acc as int);
            }
            break ;
        }
    }
    if i == n && acc <= u32::MAX as u64 {
        Some(acc as u32)
    } else {
        None
    }
}

proof fn lemma_digits_val_prefix_helper(s: Seq<char>, i: int, acc: int)
    requires
        0 <= i <= s.len(),
        all_digits(s.subrange(0, i)),
        digits_val(s.subrange(0, i)) == acc,
        acc > u32::MAX,
    ensures
        !all_digits(s) || digits_val(s) > u32::MAX,
{
    if all_digits(s) {
        lemma_digits_val_prefix(s, i);
    }
}

/// The decimal digit characters of `n`, most significant first, no sign
/// and no leading zero (`0` is written `"0"`).
pub open spec fn dec_digits(n: int) -> Seq<char>
    decreases n,
{
    if n <= 9 {
        seq![digit_char(if n < 0 { 0 } else { n })]
    } else {
        dec_digits(n / 10).push(digit_char(n % 10))
    }
}

/// Writes `n` in decimal.
pub fn format_u32(n: u32) -> (r: String)
    ensures
        r@ == dec_digits(n as int),
    decreases n,
{
    if n <= 9 {
        let mut s = String::new();
        s.push(((n + 48) as u8) as char);
        s
    } else {
        let mut s = format_u32(n / 10);
        s.push(((n % 10 + 48) as u8) as char);
        s
    }
}

/// `n` in decimal, left-padded with zeros to at least two digits.
pub open spec fn pad2(n: int) -> Seq<char> {
    if n <= 9 {
        seq!['0'] + dec_digits(n)
    } else {
        dec_digits(n)
    }
}

/// `n` in decimal, left-padded with zeros to at least four digits.
pub open spec fn pad4(n: int) -> Seq<char> {
    if n <= 9 {
        seq!['0', '0', '0'] + dec_digits(n)
    } else if n <= 99 {
        seq!['0', '0'] + dec_digits(n)
    } else if n <= 999 {
        seq!['0'] + dec_digits(n)
    } else {
        dec_digits(n)
    }
}

/// Appends `n` in decimal to `out`, zero-padded to at least two digits.
pub fn push_pad2(out: &mut String, n: u32)
    ensures
        final(out)@ == old(out)@ + pad2(n as int),
{
    let ghost pre = out@;
    if n <= 9 {
        out.push('0');
    }
    let d = format_u32(n);
    out.append(d.as_str());
    proof {
        if n <= 9 {
            assert(out@ =~= pre + pad2(n as int));
        } else {
            assert(out@ =~= pre + pad2(n as int));
        }
    }
}

/// Appends `n` in decimal to `out`, zero-padded to at least four digits.
pub fn push_pad4(out: &mut String, n: u32)
    ensures
        final(out)@ == old(out)@ + pad4(n as int),
{
    let ghost pre = out@;
    if n <= 9 {
        out.push('0');
        out.push('0');
        out.push('0');
    } else if n <= 99 {
        out.push('0');
        out.push('0');
    } else if n <= 999 {
        out.push('0');
    }
    let d = format_u32(n);
    out.append(d.as_str());
    proof {
        assert(out@ =~= pre + pad4(n as int));
    }
}

// ---------------------------------------------------------------------------
// Comparison
// ---------------------------------------------------------------------------

/// Character-wise string equality.
pub fn str_eq(a: &str, b: &str) -> (r: bool)
    ensures
        r == (a@ == b@),
{
    let na = a.unicode_len();
    let nb = b.unicode_len();
    if na != nb {
        return false;
    }
    let mut i: usize = 0;
    loop
        invariant
            0 <= i <= na,
            na == a@.len(),
            na == b@.len(),
            forall|k: int| 0 <= k < i ==> #[trigger] a@[k] == b@[k],
        ensures
            (0 <= i <= na && forall|k: int| 0 <= k < i ==> #[trigger] a@[k] == b@[k]) && (i < na
                ==> a@[i as int] != b@[i as int]),
        decreases na - i,
    {
        if i < na {
            if a.get_char(i) == b.get_char(i) {
                i += 1;
            } else {
                break ;
            }
        } else {
            break ;
        }
    }
    if i == na {
        proof {
            assert(a@ =~= b@);
        }
        true
    } else {
        false
    }
}

} // verus!
