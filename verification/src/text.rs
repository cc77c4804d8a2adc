//! Character classes of the HTTP/1.1 grammar and scanning over `&str`.
use vstd::prelude::*;

verus! {

/// ASCII alphanumeric characters, the shape of a method token.
pub open spec fn alnum_char(c: char) -> bool {
    ('a' <= c && c <= 'z') || ('A' <= c && c <= 'Z') || ('0' <= c && c <= '9')
}

/// Whether a character beyond ASCII is Unicode-alphanumeric: the part of
/// `char::is_alphanumeric` that no short definition can state.
pub uninterp spec fn unicode_alnum_ext(c: char) -> bool;

/// What `char::is_alphanumeric` decides: over ASCII exactly the letters and
/// digits, beyond ASCII the Unicode alphabetic and numeric classes.
pub open spec fn unicode_alnum(c: char) -> bool {
    alnum_char(c) || (c as u32 >= 128 && unicode_alnum_ext(c))
}

/// Relies on `char::is_alphanumeric`: true on the Unicode alphabetic and
/// numeric classes, a function of the character alone. Over ASCII those
/// classes are exactly the letters and digits; beyond ASCII they are named
/// `unicode_alnum_ext`.
pub assume_specification [ char::is_alphanumeric ](c: char) -> (b: bool)
    ensures
        b == (alnum_char(c) || (c as u32 >= 128 && unicode_alnum_ext(c))),
;

/// A character allowed in a header-name token: alphanumeric, `-` or `.`.
pub open spec fn token_char(c: char) -> bool {
    unicode_alnum(c) || c == '-' || c == '.'
}

/// A character allowed in a request path. A backslash is allowed so that
/// the parser can normalize it to a forward slash.
pub open spec fn path_char(c: char) -> bool {
    token_char(c) || c == '_' || c == '/' || c == '?' || c == '\\'
}

/// Horizontal spacing between request-line tokens and after a header colon.
pub open spec fn space_char(c: char) -> bool {
    c == ' ' || c == '\t'
}

/// Any whitespace the parser skips or trims.
pub open spec fn ws_char(c: char) -> bool {
    c == ' ' || c == '\t' || c == '\r' || c == '\n'
}

/// A decimal digit.
pub open spec fn digit(c: char) -> bool {
    '0' <= c && c <= '9'
}

/// A character allowed in the protocol version after `HTTP/`.
pub open spec fn version_char(c: char) -> bool {
    digit(c) || c == '.'
}

/// A character allowed inside a header value: anything but a line ending.
pub open spec fn value_char(c: char) -> bool {
    c != '\r' && c != '\n'
}

/// The character classes the scanner can take a run of.
#[derive(Clone, Copy, PartialEq, Eq, Structural)]
pub enum CharClass {
    Alnum,
    Token,
    Path,
    Space,
    Whitespace,
    Version,
    Value,
    NotSlash,
    NotComma,
}

/// Whether `c` belongs to class `k`.
pub open spec fn class_holds(k: CharClass, c: char) -> bool {
    match k {
        CharClass::Alnum => alnum_char(c),
        CharClass::Token => token_char(c),
        CharClass::Path => path_char(c),
        CharClass::Space => space_char(c),
        CharClass::Whitespace => ws_char(c),
        CharClass::Version => version_char(c),
        CharClass::Value => value_char(c),
        CharClass::NotSlash => c != '/',
        CharClass::NotComma => c != ',',
    }
}

/// Whether `c` may appear in a header-name token.
pub fn is_token_char(c: char) -> (b: bool)
    ensures
        b == token_char(c),
{
    c.is_alphanumeric() || c == '-' || c == '.'
}

/// Decides membership of `c` in class `k`.
pub fn char_in_class(k: CharClass, c: char) -> (b: bool)
    ensures
        b == class_holds(k, c),
{
    match k {
        CharClass::Alnum => ('a' <= c && c <= 'z') || ('A' <= c && c <= 'Z') || ('0' <= c && c
            <= '9'),
        CharClass::Token => is_token_char(c),
        CharClass::Path => is_token_char(c) || c == '_' || c == '/' || c == '?' || c == '\\',
        CharClass::Space => c == ' ' || c == '\t',
        CharClass::Whitespace => c == ' ' || c == '\t' || c == '\r' || c == '\n',
        CharClass::Version => ('0' <= c && c <= '9') || c == '.',
        CharClass::Value => c != '\r' && c != '\n',
        CharClass::NotSlash => c != '/',
        CharClass::NotComma => c != ',',
    }
}

/// The position just past the run of class-`k` characters that starts at `i`.
pub open spec fn run_end(s: Seq<char>, i: int, k: CharClass) -> int
    decreases s.len() - i
        when 0 <= i <= s.len()
{
    if i < s.len() && class_holds(k, s[i]) {
        run_end(s, i + 1, k)
    } else {
        i
    }
}

pub proof fn lemma_run_end_bounds(s: Seq<char>, i: int, k: CharClass)
    requires
        0 <= i <= s.len(),
    ensures
        i <= run_end(s, i, k) <= s.len(),
        forall|m: int| i <= m < run_end(s, i, k) ==> class_holds(k, s[m]),
        run_end(s, i, k) < s.len() ==> !class_holds(k, s[run_end(s, i, k)]),
    decreases s.len() - i,
{
    if i < s.len() && class_holds(k, s[i]) {
        lemma_run_end_bounds(s, i + 1, k);
    }
}

/// A run is pinned down by its contents: all of `[i, j)` in the class and
/// `j` at the end of the text or outside it.
pub proof fn lemma_run_end_is(s: Seq<char>, i: int, j: int, k: CharClass)
    requires
        0 <= i <= j <= s.len(),
        forall|m: int| i <= m < j ==> class_holds(k, s[m]),
        j == s.len() || !class_holds(k, s[j]),
    ensures
        run_end(s, i, k) == j,
    decreases j - i,
{
    if i < j {
        lemma_run_end_is(s, i + 1, j, k);
    }
}

/// Scans forward from `i`, returning the end of the run of class-`k` characters.
pub fn scan_while(s: &str, len: usize, i: usize, k: CharClass) -> (j: usize)
    requires
        len == s@.len(),
        i <= len,
    ensures
        j == run_end(s@, i as int, k),
        i <= j <= len,
{
    let mut j: usize = i;
    loop
        invariant
            len == s@.len(),
            i <= j <= len,
            forall|m: int| i <= m < j ==> class_holds(k, s@[m]),
        ensures
            i <= j <= len,
            forall|m: int| i <= m < j ==> class_holds(k, s@[m]),
            j == len || !class_holds(k, s@[j as int]),
        decreases len - j,
    {
        if j == len {
            break ;
        }
        let c = s.get_char(j);
        if !char_in_class(k, c) {
            break ;
        }
        j = j + 1;
    }
    proof {
        lemma_run_end_is(s@, i as int, j as int, k);
    }
    j
}

/// The start of the run of whitespace that ends at `j` (scanning backwards).
pub open spec fn rev_ws_start(s: Seq<char>, j: int) -> int
    decreases j
        when 0 <= j <= s.len()
{
    if j > 0 && ws_char(s[j - 1]) {
        rev_ws_start(s, j - 1)
    } else {
        j
    }
}

pub proof fn lemma_rev_ws_start_is(s: Seq<char>, i: int, j: int)
    requires
        0 <= i <= j <= s.len(),
        forall|m: int| i <= m < j ==> ws_char(s[m]),
        i == 0 || !ws_char(s[i - 1]),
    ensures
        rev_ws_start(s, j) == i,
    decreases j - i,
{
    if i < j {
        lemma_rev_ws_start_is(s, i, j - 1);
    }
}

/// `s` with leading and trailing whitespace removed.
pub open spec fn trim_seq(s: Seq<char>) -> Seq<char> {
    let a = run_end(s, 0, CharClass::Whitespace);
    let b = rev_ws_start(s, s.len() as int);
    if a <= b {
        s.subrange(a, b)
    } else {
        Seq::empty()
    }
}

/// Copies `s` without its leading and trailing whitespace.
pub fn trim_str(s: &str) -> (t: String)
    ensures
        t@ == trim_seq(s@),
{
    let len = s.unicode_len();
    let a = scan_while(s, len, 0, CharClass::Whitespace);
    let mut b: usize = len;
    loop
        invariant
            len == s@.len(),
            0 <= b <= len,
            forall|m: int| b <= m < len ==> ws_char(s@[m]),
        ensures
            0 <= b <= len,
            forall|m: int| b <= m < len ==> ws_char(s@[m]),
            b == 0 || !ws_char(s@[b - 1]),
        decreases b,
    {
        if b == 0 {
            break ;
        }
        let c = s.get_char(b - 1);
        if !char_in_class(CharClass::Whitespace, c) {
            break ;
        }
        b = b - 1;
    }
    proof {
        lemma_rev_ws_start_is(s@, b as int, s@.len() as int);
        lemma_run_end_bounds(s@, 0, CharClass::Whitespace);
    }
    if a <= b {
        let t = s.substring_char(a, b);
        t.to_owned()
    } else {
        proof {
            assert(trim_seq(s@) =~= Seq::<char>::empty());
        }
        String::new()
    }
}

/// `c` mapped to lower case when it is an ASCII upper-case letter.
pub open spec fn lower_char(c: char) -> char {
    if 'A' <= c && c <= 'Z' {
        ((c as u8) + 32) as char
    } else {
        c
    }
}

/// `s` with every ASCII letter in lower case.
pub open spec fn lower_seq(s: Seq<char>) -> Seq<char> {
    Seq::new(s.len(), |i: int| lower_char(s[i]))
}

/// Whether `a` and `b` hold the same characters.
pub fn str_eq(a: &str, b: &str) -> (r: bool)
    ensures
        r == (a@ == b@),
{
    let alen = a.unicode_len();
    let blen = b.unicode_len();
    if alen != blen {
        return false;
    }
    let mut i: usize = 0;
    while i < alen
        invariant
            alen == a@.len(),
            blen == b@.len(),
            alen == blen,
            i <= alen,
            forall|m: int| 0 <= m < i ==> a@[m] == b@[m],
        decreases alen - i,
    {
        if a.get_char(i) != b.get_char(i) {
            return false;
        }
        i = i + 1;
    }
    proof {
        assert(a@ =~= b@);
    }
    true
}

/// Whether `a` and `b` are equal once ASCII case is folded away.
pub fn str_eq_ignore_case(a: &str, b: &str) -> (r: bool)
    ensures
        r == (lower_seq(a@) == lower_seq(b@)),
{
    let alen = a.unicode_len();
    let blen = b.unicode_len();
    if alen != blen {
        proof {
            assert(lower_seq(a@).len() != lower_seq(b@).len());
        }
        return false;
    }
    let mut i: usize = 0;
    while i < alen
        invariant
            alen == a@.len(),
            blen == b@.len(),
            alen == blen,
            i <= alen,
            forall|m: int| 0 <= m < i ==> lower_char(a@[m]) == lower_char(b@[m]),
        decreases alen - i,
    {
        let ca = to_lower_char(a.get_char(i));
        let cb = to_lower_char(b.get_char(i));
        if ca != cb {
            proof {
                assert(lower_seq(a@)[i as int] != lower_seq(b@)[i as int]);
            }
            return false;
        }
        i = i + 1;
    }
    proof {
        assert(lower_seq(a@) =~= lower_seq(b@));
    }
    true
}

/// Maps an ASCII upper-case letter to lower case and leaves the rest alone.
pub fn to_lower_char(c: char) -> (r: char)
    ensures
        r == lower_char(c),
{
    if 'A' <= c && c <= 'Z' {
        ((c as u8) + 32) as char
    } else {
        c
    }
}

/// Relies on `String::push`: appends one character to the string.
pub assume_specification [ String::push ](s: &mut String, c: char)
    ensures
        final (s)@ == old(s)@.push(c),
;

/// `s` with every backslash replaced by a forward slash.
pub open spec fn norm_slashes(s: Seq<char>) -> Seq<char> {
    Seq::new(
        s.len(),
        |i: int|
            if s[i] == '\\' {
                '/'
            } else {
                s[i]
            },
    )
}

/// Copies `s`, replacing every backslash with a forward slash.
pub fn normalize_slashes(s: &str) -> (t: String)
    ensures
        t@ == norm_slashes(s@),
{
    let len = s.unicode_len();
    let mut t = String::new();
    let mut i: usize = 0;
    while i < len
        invariant
            len == s@.len(),
            i <= len,
            t@ == norm_slashes(s@).subrange(0, i as int),
        decreases len - i,
    {
        let c = s.get_char(i);
        if c == '\\' {
            t.push('/');
        } else {
            t.push(c);
        }
        i = i + 1;
        proof {
            assert(t@ =~= norm_slashes(s@).subrange(0, i as int));
        }
    }
    proof {
        assert(norm_slashes(s@).subrange(0, s@.len() as int) =~= norm_slashes(s@));
    }
    t
}

/// The decimal digit characters of `n`, most significant first.
pub open spec fn dec_str(n: nat) -> Seq<char>
    decreases n,
{
    if n < 10 {
        seq![digit_char(n)]
    } else {
        dec_str(n / 10).push(digit_char(n % 10))
    }
}

/// The character for a single decimal digit.
pub open spec fn digit_char(d: nat) -> char {
    if d == 0 {
        '0'
    } else if d == 1 {
        '1'
    } else if d == 2 {
        '2'
    } else if d == 3 {
        '3'
    } else if d == 4 {
        '4'
    } else if d == 5 {
        '5'
    } else if d == 6 {
        '6'
    } else if d == 7 {
        '7'
    } else if d == 8 {
        '8'
    } else {
        '9'
    }
}

/// The numeric value of a decimal digit character.
pub open spec fn digit_val(c: char) -> nat {
    if c == '0' {
        0
    } else if c == '1' {
        1
    } else if c == '2' {
        2
    } else if c == '3' {
        3
    } else if c == '4' {
        4
    } else if c == '5' {
        5
    } else if c == '6' {
        6
    } else if c == '7' {
        7
    } else if c == '8' {
        8
    } else {
        9
    }
}

/// The number denoted by a sequence of decimal digit characters.
pub open spec fn dec_val(s: Seq<char>) -> nat
    decreases s.len(),
{
    if s.len() == 0 {
        0
    } else {
        dec_val(s.drop_last()) * 10 + digit_val(s.last())
    }
}

/// Reading back the decimal text of `n` yields `n` again.
pub proof fn lemma_dec_str_val(n: nat)
    ensures
        dec_val(dec_str(n)) == n,
    decreases n,
{
    if n < 10 {
        assert(dec_str(n) =~= seq![digit_char(n)]);
        assert(dec_str(n).drop_last() =~= Seq::<char>::empty());
        assert(dec_val(dec_str(n)) == dec_val(Seq::<char>::empty()) * 10 + digit_val(
            digit_char(n),
        ));
        assert(digit_val(digit_char(n)) == n);
    } else {
        lemma_dec_str_val(n / 10);
        assert(dec_str(n) == dec_str(n / 10).push(digit_char(n % 10)));
        assert(dec_str(n).drop_last() =~= dec_str(n / 10));
        assert(dec_str(n).last() == digit_char(n % 10));
        assert(dec_str(n).len() > 0);
        assert(dec_val(dec_str(n)) == dec_val(dec_str(n / 10)) * 10 + digit_val(
            digit_char(n % 10),
        ));
        assert(digit_val(digit_char(n % 10)) == n % 10);
        vstd::arithmetic::div_mod::lemma_fundamental_div_mod(n as int, 10);
    }
}

/// Writes `n` in decimal.
pub fn dec_string(n: usize) -> (s: String)
    ensures
        s@ == dec_str(n as nat),
    decreases n,
{
    let d: usize = n % 10;
    let c: char = match d {
        0 => '0',
        1 => '1',
        2 => '2',
        3 => '3',
        4 => '4',
        5 => '5',
        6 => '6',
        7 => '7',
        8 => '8',
        _ => '9',
    };
    proof {
        assert(c == digit_char((n % 10) as nat));
    }
    if n < 10 {
        let mut s = String::new();
        s.push(c);
        proof {
            assert(s@ =~= dec_str(n as nat));
        }
        s
    } else {
        proof {
            assert(n / 10 < n) by (nonlinear_arith)
                requires
                    n >= 10,
            ;
        }
        let mut s = dec_string(n / 10);
        s.push(c);
        proof {
            assert(s@ =~= dec_str(n as nat));
        }
        s
    }
}

} // verus!
