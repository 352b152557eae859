//! Character classification and small text-building helpers shared by the
//! pipeline stages.

use vstd::prelude::*;

verus! {

/// The set of characters the Unicode `White_Space` property contains; a
/// property of the character alone.
pub uninterp spec fn whitespace_char(c: char) -> bool;

/// Relies on char::is_whitespace: true exactly for characters with the
/// Unicode `White_Space` property, a function of the character alone. The
/// property plainly holds of blank, tab, line feed and carriage return, and
/// plainly fails on every printing ASCII character other than the blank.
pub assume_specification[ char::is_whitespace ](c: char) -> (r: bool)
    ensures
        r == whitespace_char(c),
        (c == ' ' || c == '\t' || c == '\n' || c == '\r') ==> r,
        ('!' <= c && c <= '~') ==> !r,
;

/// The set of alphanumeric characters (Unicode `Alphabetic` plus the number
/// categories); a property of the character alone.
pub uninterp spec fn alphanumeric_char(c: char) -> bool;

/// Relies on char::is_alphanumeric: true exactly for characters in the
/// Unicode `Alphabetic` or number categories, a function of the character
/// alone. ASCII letters and digits are plainly alphanumeric; ASCII
/// punctuation, symbols and the blank plainly are not; and no alphanumeric
/// character has the `White_Space` property, the two categories being
/// disjoint.
pub assume_specification[ char::is_alphanumeric ](c: char) -> (r: bool)
    ensures
        r == alphanumeric_char(c),
        (('a' <= c && c <= 'z') || ('A' <= c && c <= 'Z') || ('0' <= c && c <= '9')) ==> r,
        ((' ' <= c && c <= '/') || (':' <= c && c <= '@') || ('[' <= c && c <= '`') || ('{' <= c
            && c <= '~')) ==> !r,
        r ==> !whitespace_char(c),
;

/// Relies on String::push: appends the given character to the end of the
/// string.
#[verifier::external_body]
pub fn push_char(s: &mut String, c: char)
    ensures
        final(s)@ == old(s)@.push(c),
{
    s.push(c);
}

/// Compares two string slices character by character.
pub fn str_eq(a: &str, b: &str) -> (r: bool)
    ensures
        r == (a@ == b@),
{
    let n = a.unicode_len();
    let m = b.unicode_len();
    if n != m {
        proof {
            assert(a@ != b@);
        }
        return false;
    }
    let mut i: usize = 0;
    while i < n
        invariant
            i <= n,
            n == a@.len(),
            n == b@.len(),
            forall|k: int| 0 <= k < i ==> a@[k] == b@[k],
        decreases n - i,
    {
        if a.get_char(i) != b.get_char(i) {
            return false;
        }
        i += 1;
    }
    proof {
        assert(a@ =~= b@);
    }
    true
}

/// What is left of `s` after dropping leading white space.
pub open spec fn trim_start(s: Seq<char>) -> Seq<char>
    decreases s.len(),
{
    if s.len() > 0 && whitespace_char(s[0]) {
        trim_start(s.drop_first())
    } else {
        s
    }
}

/// What is left of `s` after dropping trailing white space.
pub open spec fn trim_end(s: Seq<char>) -> Seq<char>
    decreases s.len(),
{
    if s.len() > 0 && whitespace_char(s.last()) {
        trim_end(s.drop_last())
    } else {
        s
    }
}

/// What is left of `s` after dropping leading and trailing white space.
pub open spec fn spec_trim(s: Seq<char>) -> Seq<char> {
    trim_end(trim_start(s))
}

/// `trim_start` keeps exactly the suffix after the leading run of white
/// space.
pub proof fn lemma_trim_start_index(s: Seq<char>)
    ensures
        trim_start(s).len() <= s.len(),
        trim_start(s) =~= s.subrange(s.len() - trim_start(s).len(), s.len() as int),
        forall|i: int| 0 <= i < s.len() - trim_start(s).len() ==> whitespace_char(s[i]),
        trim_start(s).len() > 0 ==> !whitespace_char(trim_start(s)[0]),
    decreases s.len(),
{
    if s.len() > 0 && whitespace_char(s[0]) {
        let d = s.drop_first();
        lemma_trim_start_index(d);
        assert(d =~= s.subrange(1, s.len() as int));
        let t = trim_start(s);
        assert(t =~= s.subrange(s.len() - t.len(), s.len() as int));
        assert forall|i: int| 0 <= i < s.len() - t.len() implies whitespace_char(s[i]) by {
            if i > 0 {
                assert(s[i] == d[i - 1]);
                assert(whitespace_char(d[i - 1]));
            }
        }
    }
}

/// `trim_end` keeps exactly the prefix before the trailing run of white
/// space.
pub proof fn lemma_trim_end_index(s: Seq<char>)
    ensures
        trim_end(s).len() <= s.len(),
        trim_end(s) =~= s.subrange(0, trim_end(s).len() as int),
        forall|i: int| trim_end(s).len() <= i < s.len() ==> whitespace_char(s[i]),
        trim_end(s).len() > 0 ==> !whitespace_char(trim_end(s)[trim_end(s).len() - 1]),
    decreases s.len(),
{
    if s.len() > 0 && whitespace_char(s.last()) {
        let d = s.drop_last();
        lemma_trim_end_index(d);
        assert(d =~= s.subrange(0, s.len() - 1));
        let t = trim_end(s);
        assert(t =~= s.subrange(0, t.len() as int));
        assert forall|i: int| t.len() <= i < s.len() implies whitespace_char(s[i]) by {
            if i < s.len() - 1 {
                assert(s[i] == d[i]);
                assert(whitespace_char(d[i]));
            }
        }
    }
}

/// Trimming leaves nothing exactly when every character is white space.
pub proof fn lemma_blank_iff_all_whitespace(s: Seq<char>)
    ensures
        (spec_trim(s).len() == 0) <==> (forall|i: int|
            0 <= i < s.len() ==> whitespace_char(s[i])),
{
    lemma_trim_start_index(s);
    let t = trim_start(s);
    lemma_trim_end_index(t);
    if spec_trim(s).len() == 0 {
        if t.len() > 0 {
            assert(whitespace_char(t[0]));
        }
        assert forall|i: int| 0 <= i < s.len() implies whitespace_char(s[i]) by {
            if i >= s.len() - t.len() {
                assert(s[i] == t[i - (s.len() - t.len())]);
            }
        }
    } else {
        assert(t.len() > 0 && !whitespace_char(t[0]));
        assert(t[0] == s[s.len() - t.len()]);
    }
}

/// The trimmed text, as the characters between the first and last non-white
/// characters of `s`; `lo` counts the leading white run, `hi` marks the end
/// of the content.
pub proof fn lemma_trim_as_subrange(s: Seq<char>, lo: int, hi: int)
    requires
        0 <= lo <= hi <= s.len(),
        forall|i: int| 0 <= i < lo ==> whitespace_char(s[i]),
        lo < hi ==> !whitespace_char(s[lo]),
        forall|i: int| hi <= i < s.len() ==> whitespace_char(s[i]),
        lo < hi ==> !whitespace_char(s[hi - 1]),
        lo == hi ==> lo == 0 || hi == s.len(),
    ensures
        spec_trim(s) =~= s.subrange(lo, hi),
{
    lemma_trim_start_index(s);
    let t = trim_start(s);
    lemma_trim_end_index(t);
    let k = s.len() - t.len();
    if lo < hi {
        if k < lo {
            assert(whitespace_char(s[k]));
            assert(t[0] == s[k]);
            assert(false);
        }
        if k > lo {
            assert(whitespace_char(s[lo]));
            assert(false);
        }
        let u = trim_end(t);
        let h = k + u.len();
        if h < hi {
            assert(whitespace_char(t[hi - 1 - k]));
            assert(t[hi - 1 - k] == s[hi - 1]);
            assert(false);
        }
        if h > hi {
            assert(u[u.len() - 1] == t[u.len() - 1]);
            assert(t[u.len() - 1] == s[h - 1]);
            assert(whitespace_char(s[h - 1]));
            assert(false);
        }
        assert forall|i: int| 0 <= i < u.len() implies u[i] == s.subrange(lo, hi)[i] by {
            assert(u[i] == t[i]);
            assert(t[i] == s[k + i]);
        }
    } else {
        assert forall|i: int| 0 <= i < s.len() implies whitespace_char(s[i]) by {}
        lemma_blank_iff_all_whitespace(s);
    }
}

/// The decimal digit character for a value below ten.
pub open spec fn digit_char(d: int) -> char {
    if d == 0 {
        '0'
    } else if d == 1 {
        '1'
    } else if d == 2 {
        '2'
    } else if d == 3 {
        '3'
    } else if d == 4 {
        '4'
    } else if d == 5 {
        '5'
    } else if d == 6 {
        '6'
    } else if d == 7 {
        '7'
    } else if d == 8 {
        '8'
    } else {
        '9'
    }
}

/// The decimal rendering of a non-negative integer, most significant digit
/// first.
pub open spec fn spec_dec_nat(n: int) -> Seq<char>
    decreases n,
{
    if n <= 0 {
        seq![digit_char(0)]
    } else if n < 10 {
        seq![digit_char(n)]
    } else {
        spec_dec_nat(n / 10).push(digit_char(n % 10))
    }
}

/// The decimal rendering of a signed integer: a minus sign, if negative,
/// followed by the digits of the magnitude.
pub open spec fn spec_dec_int(n: int) -> Seq<char> {
    if n < 0 {
        seq!['-'] + spec_dec_nat(-n)
    } else {
        spec_dec_nat(n)
    }
}

fn digit_char_exec(d: u64) -> (r: char)
    requires
        d < 10,
    ensures
        r == digit_char(d as int),
{
    ((48 + d) as u8) as char
}

/// Renders an unsigned integer in decimal.
pub fn dec_u64(n: u64) -> (r: String)
    ensures
        r@ == spec_dec_nat(n as int),
    decreases n,
{
    if n < 10 {
        let mut s = String::new();
        push_char(&mut s, digit_char_exec(n));
        proof {
            assert(s@ =~= seq![digit_char(n as int)]);
        }
        s
    } else {
        let mut s = dec_u64(n / 10);
        push_char(&mut s, digit_char_exec(n % 10));
        s
    }
}

/// Renders a signed integer in decimal.
pub fn dec_i64(n: i64) -> (r: String)
    ensures
        r@ == spec_dec_int(n as int),
{
    if n >= 0 {
        dec_u64(n as u64)
    } else {
        let wide: i128 = -(n as i128);
        let mut s = String::new();
        push_char(&mut s, '-');
        let digits = dec_u64(wide as u64);
        s.append(digits.as_str());
        proof {
            assert(s@ =~= seq!['-'] + spec_dec_nat(-(n as int)));
        }
        s
    }
}

} // verus!
