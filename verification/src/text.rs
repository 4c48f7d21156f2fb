//! Text building blocks: decimal numerals and character-level string
//! construction shared by the source emitters and the scene format.

use vstd::prelude::*;

verus! {

/// The ASCII digit for `d` (0..=9).
pub open spec fn digit_char(d: nat) -> char {
    ((48 + d) as u32) as char
}

/// The decimal numeral of `n`, most significant digit first, no leading
/// zeros ("0" for zero).
pub open spec fn decimal(n: nat) -> Seq<char>
    decreases n,
{
    if n < 10 {
        seq![digit_char(n)]
    } else {
        decimal(n / 10).push(digit_char(n % 10))
    }
}

/// `String::push`: appends one character to the end of the string.
#[verifier::external_body]
pub(crate) fn push_char(s: &mut String, c: char)
    ensures
        final(s)@ == old(s)@.push(c),
{
    s.push(c);
}

/// The ASCII digit character for a single digit.
pub fn digit(d: u32) -> (c: char)
    requires
        d < 10,
    ensures
        c == digit_char(d as nat),
{
    let b: u8 = 48u8 + (d as u8);
    b as char
}

/// Append the decimal numeral of `n` to `s`.
pub fn append_decimal(s: &mut String, n: u64)
    ensures
        final(s)@ == old(s)@ + decimal(n as nat),
    decreases n,
{
    if n >= 10 {
        append_decimal(s, n / 10);
    }
    let d = digit((n % 10) as u32);
    let ghost mid = s@;
    push_char(s, d);
    proof {
        if n >= 10 {
            assert(s@ =~= old(s)@ + decimal(n as nat));
        } else {
            assert(s@ =~= old(s)@ + decimal(n as nat));
        }
    }
}

/// The decimal numeral of `n` as a new string.
pub fn decimal_string(n: u64) -> (s: String)
    ensures
        s@ == decimal(n as nat),
{
    let mut s = String::new();
    append_decimal(&mut s, n);
    assert(s@ =~= decimal(n as nat));
    s
}

/// Whether `c` has the Unicode Uppercase property (`char::is_uppercase`).
pub uninterp spec fn spec_is_uppercase(c: char) -> bool;

/// `char::is_uppercase`: whether `c` has the Unicode Uppercase property.
/// Among ASCII characters exactly 'A'..='Z' have it. Nothing is stated of
/// other characters beyond the name.
#[verifier::external_body]
pub(crate) fn char_is_uppercase(c: char) -> (b: bool)
    ensures
        b == spec_is_uppercase(c),
        (c as u32) < 128 ==> (b <==> (65 <= (c as u32) && (c as u32) <= 90)),
{
    c.is_uppercase()
}

/// ASCII lowercase: 'A'..='Z' map to 'a'..='z', every other character
/// stays as it is.
pub open spec fn ascii_lower(c: char) -> char {
    if 65 <= (c as u32) && (c as u32) <= 90 {
        ((c as u32) + 32) as char
    } else {
        c
    }
}

/// The ASCII-lowercase of `c` (see `ascii_lower`).
pub fn to_ascii_lower(c: char) -> (r: char)
    ensures
        r == ascii_lower(c),
{
    let code = c as u32;
    if 65 <= code && code <= 90 {
        let b: u8 = (code + 32) as u8;
        b as char
    } else {
        c
    }
}

/// Character-wise string equality.
pub fn str_eq(a: &str, b: &str) -> (r: bool)
    ensures
        r == (a@ == b@),
{
    let n = a.unicode_len();
    let m = b.unicode_len();
    if n != m {
        return false;
    }
    let mut i: usize = 0;
    while i < n
        invariant
            n == a@.len(),
            m == b@.len(),
            n == m,
            i <= n,
            forall|j: int| 0 <= j < i ==> a@[j] == b@[j],
        decreases n - i,
    {
        if a.get_char(i) != b.get_char(i) {
            return false;
        }
        i = i + 1;
    }
    assert(a@ =~= b@);
    true
}


// ---------- Reading text ----------

/// Unicode White_Space, the characters `char::is_whitespace` accepts.
pub open spec fn is_white(c: char) -> bool {
    let u = c as u32;
    (9 <= u && u <= 13) || u == 32 || u == 0x85 || u == 0xA0 || u == 0x1680 || (0x2000 <= u && u
        <= 0x200A) || u == 0x2028 || u == 0x2029 || u == 0x202F || u == 0x205F || u == 0x3000
}

/// Whether `c` is white space (see `is_white`).
pub fn white(c: char) -> (b: bool)
    ensures
        b == is_white(c),
{
    let u = c as u32;
    (9 <= u && u <= 13) || u == 32 || u == 0x85 || u == 0xA0 || u == 0x1680 || (0x2000 <= u && u
        <= 0x200A) || u == 0x2028 || u == 0x2029 || u == 0x202F || u == 0x205F || u == 0x3000
}

/// `s` without its leading white space.
pub open spec fn trim_start(s: Seq<char>) -> Seq<char>
    decreases s.len(),
{
    if s.len() > 0 && is_white(s[0]) {
        trim_start(s.drop_first())
    } else {
        s
    }
}

/// `s` without its trailing white space.
pub open spec fn trim_end(s: Seq<char>) -> Seq<char>
    decreases s.len(),
{
    if s.len() > 0 && is_white(s.last()) {
        trim_end(s.drop_last())
    } else {
        s
    }
}

/// `s` without leading and trailing white space (`str::trim`).
pub open spec fn trim(s: Seq<char>) -> Seq<char> {
    trim_end(trim_start(s))
}

/// The pieces of `s` between occurrences of `sep` (one more piece than
/// there are separators; pieces may be empty).
pub open spec fn split_char(s: Seq<char>, sep: char) -> Seq<Seq<char>>
    decreases s.len(),
{
    if s.len() == 0 {
        seq![Seq::empty()]
    } else {
        let p = split_char(s.drop_last(), sep);
        if s.last() == sep {
            p.push(Seq::empty())
        } else {
            p.update(p.len() - 1, p.last().push(s.last()))
        }
    }
}

/// The pieces of `s` between white-space characters.
pub open spec fn split_white(s: Seq<char>) -> Seq<Seq<char>>
    decreases s.len(),
{
    if s.len() == 0 {
        seq![Seq::empty()]
    } else {
        let p = split_white(s.drop_last());
        if is_white(s.last()) {
            p.push(Seq::empty())
        } else {
            p.update(p.len() - 1, p.last().push(s.last()))
        }
    }
}

/// The non-empty pieces, in order.
pub open spec fn non_empty(pieces: Seq<Seq<char>>) -> Seq<Seq<char>>
    decreases pieces.len(),
{
    if pieces.len() == 0 {
        Seq::empty()
    } else if pieces.last().len() > 0 {
        non_empty(pieces.drop_last()).push(pieces.last())
    } else {
        non_empty(pieces.drop_last())
    }
}

/// The white-space separated words of `s` (`str::split_whitespace`).
pub open spec fn words(s: Seq<char>) -> Seq<Seq<char>> {
    non_empty(split_white(s))
}

/// The lines of `s`, each trimmed, blank ones left out.
pub open spec fn content_lines(s: Seq<char>) -> Seq<Seq<char>> {
    non_empty(split_char(s, '\n').map_values(|l: Seq<char>| trim(l)))
}

/// `s` begins with `p`.
pub open spec fn has_prefix(s: Seq<char>, p: Seq<char>) -> bool {
    p.len() <= s.len() && s.subrange(0, p.len() as int) == p
}

/// The parts of `s` before and after the first `sep`, if there is one.
pub open spec fn split_first(s: Seq<char>, sep: char) -> Option<(Seq<char>, Seq<char>)>
    decreases s.len(),
{
    if s.len() == 0 {
        None
    } else if s[0] == sep {
        Some((Seq::empty(), s.drop_first()))
    } else {
        match split_first(s.drop_first(), sep) {
            Some((a, b)) => Some((seq![s[0]] + a, b)),
            None => None,
        }
    }
}

/// Every character is an ASCII digit.
pub open spec fn all_digits(s: Seq<char>) -> bool {
    forall|i: int| 0 <= i < s.len() ==> '0' <= #[trigger] s[i] && s[i] <= '9'
}

/// The number the digits of `s` spell.
pub open spec fn digits_value(s: Seq<char>) -> int
    decreases s.len(),
{
    if s.len() == 0 {
        0
    } else {
        digits_value(s.drop_last()) * 10 + (s.last() as int - 48)
    }
}

/// An unsigned integer no larger than `max` written in decimal, with an
/// optional leading '+' (the `FromStr` of Rust's unsigned integer types).
pub open spec fn parse_unsigned(s: Seq<char>, max: int) -> Option<int> {
    let d = if s.len() > 0 && s[0] == '+' {
        s.drop_first()
    } else {
        s
    };
    if d.len() > 0 && all_digits(d) && digits_value(d) <= max {
        Some(digits_value(d))
    } else {
        None
    }
}

pub proof fn lemma_split_char_nonempty(s: Seq<char>, sep: char)
    ensures
        split_char(s, sep).len() >= 1,
    decreases s.len(),
{
    if s.len() > 0 {
        lemma_split_char_nonempty(s.drop_last(), sep);
    }
}

pub proof fn lemma_split_white_nonempty(s: Seq<char>)
    ensures
        split_white(s).len() >= 1,
    decreases s.len(),
{
    if s.len() > 0 {
        lemma_split_white_nonempty(s.drop_last());
    }
}

/// `v` with leading and trailing white space removed (see `trim`).
pub fn trim_chars(v: &Vec<char>) -> (r: Vec<char>)
    ensures
        r@ == trim(v@),
{
    let n = v.len();
    let mut a: usize = 0;
    assert(v@.skip(0) =~= v@);
    while a < n && white(v[a])
        invariant
            a <= n,
            n == v@.len(),
            trim_start(v@) == trim_start(v@.skip(a as int)),
        decreases n - a,
    {
        assert(v@.skip(a as int)[0] == v@[a as int]);
        assert(v@.skip(a as int).drop_first() =~= v@.skip(a + 1));
        a = a + 1;
    }
    let ghost t1 = v@.skip(a as int);
    proof {
        if a < n {
            assert(t1[0] == v@[a as int]);
        }
    }
    assert(trim_start(v@) == t1);
    let mut b: usize = n;
    assert(t1.subrange(0, (n - a) as int) =~= t1);
    while b > a && white(v[b - 1])
        invariant
            a <= b <= n,
            n == v@.len(),
            t1 == v@.skip(a as int),
            trim_end(t1) == trim_end(t1.subrange(0, (b - a) as int)),
        decreases b,
    {
        assert(t1.subrange(0, (b - a) as int).last() == v@[b - 1]);
        assert(t1.subrange(0, (b - a) as int).drop_last() =~= t1.subrange(0, (b - 1 - a) as int));
        b = b - 1;
    }
    proof {
        if b > a {
            assert(t1.subrange(0, (b - a) as int).last() == v@[b - 1]);
        }
    }
    let mut r: Vec<char> = Vec::new();
    let mut i: usize = a;
    while i < b
        invariant
            a <= i <= b,
            b <= n,
            n == v@.len(),
            r@ == v@.subrange(a as int, i as int),
        decreases b - i,
    {
        r.push(v[i]);
        assert(r@ =~= v@.subrange(a as int, i + 1));
        i = i + 1;
    }
    assert(r@ =~= t1.subrange(0, (b - a) as int));
    r
}

/// The characters of `s`.
pub fn chars_of(s: &str) -> (v: Vec<char>)
    ensures
        v@ == s@,
{
    let n = s.unicode_len();
    let mut v: Vec<char> = Vec::new();
    let mut j: usize = 0;
    while j < n
        invariant
            j <= n,
            n == s@.len(),
            v@ == s@.subrange(0, j as int),
        decreases n - j,
    {
        v.push(s.get_char(j));
        assert(v@ =~= s@.subrange(0, j + 1));
        j = j + 1;
    }
    assert(s@.subrange(0, n as int) =~= s@);
    v
}

/// The trimmed, non-blank lines of `s` (see `content_lines`).
pub fn lines_of(s: &str) -> (v: Vec<Vec<char>>)
    ensures
        v@.map_values(|l: Vec<char>| l@) == content_lines(s@),
{
    let text = chars_of(s);
    let n = text.len();
    let mut done: Vec<Vec<char>> = Vec::new();
    let mut cur: Vec<char> = Vec::new();
    let mut i: usize = 0;
    assert(text@.subrange(0, 0) =~= Seq::<char>::empty());
    assert(done@.map_values(|l: Vec<char>| l@) =~= non_empty(
        split_char(text@.subrange(0, 0), '\n').drop_last().map_values(|l: Seq<char>| trim(l)),
    ));
    while i < n
        invariant
            i <= n,
            n == text@.len(),
            text@ == s@,
            split_char(text@.subrange(0, i as int), '\n').len() >= 1,
            cur@ == split_char(text@.subrange(0, i as int), '\n').last(),
            done@.map_values(|l: Vec<char>| l@) == non_empty(
                split_char(text@.subrange(0, i as int), '\n').drop_last().map_values(
                    |l: Seq<char>| trim(l),
                ),
            ),
        decreases n - i,
    {
        let c = text[i];
        let ghost p = split_char(text@.subrange(0, i as int), '\n');
        assert(text@.subrange(0, i + 1).drop_last() =~= text@.subrange(0, i as int));
        assert(text@.subrange(0, i + 1).last() == c);
        if c == '\n' {
            let t = trim_chars(&cur);
            let ghost before = done@.map_values(|l: Vec<char>| l@);
            if t.len() > 0 {
                done.push(t);
                assert(done@.map_values(|l: Vec<char>| l@) =~= before.push(t@));
            }
            assert(p.map_values(|l: Seq<char>| trim(l)).drop_last() =~= p.drop_last().map_values(
                |l: Seq<char>| trim(l),
            ));
            assert(p.push(Seq::empty()).drop_last() =~= p);
            cur = Vec::new();
        } else {
            cur.push(c);
            assert(p.update(p.len() - 1, p.last().push(c)).drop_last() =~= p.drop_last());
        }
        proof {
            lemma_split_char_nonempty(text@.subrange(0, i + 1), '\n');
        }
        i = i + 1;
    }
    assert(text@.subrange(0, n as int) =~= text@);
    let ghost p = split_char(text@, '\n');
    let t = trim_chars(&cur);
    let ghost before = done@.map_values(|l: Vec<char>| l@);
    if t.len() > 0 {
        done.push(t);
        assert(done@.map_values(|l: Vec<char>| l@) =~= before.push(t@));
    }
    assert(p.map_values(|l: Seq<char>| trim(l)).drop_last() =~= p.drop_last().map_values(
        |l: Seq<char>| trim(l),
    ));
    done
}


/// The white-space separated words of `v` (see `words`).
pub fn words_of(v: &Vec<char>) -> (w: Vec<Vec<char>>)
    ensures
        w@.map_values(|x: Vec<char>| x@) == words(v@),
{
    let n = v.len();
    let mut done: Vec<Vec<char>> = Vec::new();
    let mut cur: Vec<char> = Vec::new();
    let mut i: usize = 0;
    assert(v@.subrange(0, 0) =~= Seq::<char>::empty());
    assert(done@.map_values(|x: Vec<char>| x@) =~= non_empty(
        split_white(v@.subrange(0, 0)).drop_last(),
    ));
    while i < n
        invariant
            i <= n,
            n == v@.len(),
            split_white(v@.subrange(0, i as int)).len() >= 1,
            cur@ == split_white(v@.subrange(0, i as int)).last(),
            done@.map_values(|x: Vec<char>| x@) == non_empty(
                split_white(v@.subrange(0, i as int)).drop_last(),
            ),
        decreases n - i,
    {
        let c = v[i];
        let ghost p = split_white(v@.subrange(0, i as int));
        assert(v@.subrange(0, i + 1).drop_last() =~= v@.subrange(0, i as int));
        assert(v@.subrange(0, i + 1).last() == c);
        if white(c) {
            let ghost before = done@.map_values(|x: Vec<char>| x@);
            if cur.len() > 0 {
                let ghost cv = cur@;
                done.push(cur);
                assert(done@.map_values(|x: Vec<char>| x@) =~= before.push(cv));
            }
            assert(p.push(Seq::empty()).drop_last() =~= p);
            cur = Vec::new();
        } else {
            cur.push(c);
            assert(p.update(p.len() - 1, p.last().push(c)).drop_last() =~= p.drop_last());
        }
        proof {
            lemma_split_white_nonempty(v@.subrange(0, i + 1));
        }
        i = i + 1;
    }
    assert(v@.subrange(0, n as int) =~= v@);
    let ghost before = done@.map_values(|x: Vec<char>| x@);
    if cur.len() > 0 {
        let ghost cv = cur@;
        done.push(cur);
        assert(done@.map_values(|x: Vec<char>| x@) =~= before.push(cv));
    }
    done
}

/// The pieces of `v` between commas (see `split_char`).
pub fn split_commas(v: &Vec<char>) -> (w: Vec<Vec<char>>)
    ensures
        w@.map_values(|x: Vec<char>| x@) == split_char(v@, ','),
{
    let n = v.len();
    let mut done: Vec<Vec<char>> = Vec::new();
    let mut cur: Vec<char> = Vec::new();
    let mut i: usize = 0;
    assert(v@.subrange(0, 0) =~= Seq::<char>::empty());
    assert(done@.map_values(|x: Vec<char>| x@) =~= split_char(v@.subrange(0, 0), ',').drop_last());
    while i < n
        invariant
            i <= n,
            n == v@.len(),
            split_char(v@.subrange(0, i as int), ',').len() >= 1,
            cur@ == split_char(v@.subrange(0, i as int), ',').last(),
            done@.map_values(|x: Vec<char>| x@) == split_char(
                v@.subrange(0, i as int),
                ',',
            ).drop_last(),
        decreases n - i,
    {
        let c = v[i];
        let ghost p = split_char(v@.subrange(0, i as int), ',');
        assert(v@.subrange(0, i + 1).drop_last() =~= v@.subrange(0, i as int));
        assert(v@.subrange(0, i + 1).last() == c);
        if c == ',' {
            let ghost before = done@.map_values(|x: Vec<char>| x@);
            let ghost cv = cur@;
            done.push(cur);
            assert(done@.map_values(|x: Vec<char>| x@) =~= before.push(cv));
            assert(p.push(Seq::empty()).drop_last() =~= p.drop_last().push(p.last()));
            cur = Vec::new();
        } else {
            cur.push(c);
            assert(p.update(p.len() - 1, p.last().push(c)).drop_last() =~= p.drop_last());
        }
        proof {
            lemma_split_char_nonempty(v@.subrange(0, i + 1), ',');
        }
        i = i + 1;
    }
    assert(v@.subrange(0, n as int) =~= v@);
    let ghost p = split_char(v@, ',');
    let ghost before = done@.map_values(|x: Vec<char>| x@);
    let ghost cv = cur@;
    done.push(cur);
    assert(done@.map_values(|x: Vec<char>| x@) =~= before.push(cv));
    assert(p =~= p.drop_last().push(p.last()));
    done
}

/// Whether `v` begins with the characters of `p`.
pub fn starts_with(v: &Vec<char>, p: &str) -> (b: bool)
    ensures
        b == has_prefix(v@, p@),
{
    let m = p.unicode_len();
    if m > v.len() {
        return false;
    }
    let mut i: usize = 0;
    while i < m
        invariant
            i <= m,
            m == p@.len(),
            m <= v@.len(),
            forall|j: int| 0 <= j < i ==> v@[j] == p@[j],
        decreases m - i,
    {
        if v[i] != p.get_char(i) {
            assert(v@.subrange(0, m as int)[i as int] != p@[i as int]);
            return false;
        }
        i = i + 1;
    }
    assert(v@.subrange(0, m as int) =~= p@);
    true
}

/// Whether `v` holds exactly the characters of `s`.
pub fn same_chars(v: &Vec<char>, s: &str) -> (b: bool)
    ensures
        b == (v@ == s@),
{
    let m = s.unicode_len();
    if m != v.len() {
        return false;
    }
    let r = starts_with(v, s);
    proof {
        if r {
            assert(v@.subrange(0, m as int) =~= v@);
        } else {
            assert(v@.subrange(0, m as int) =~= v@);
        }
    }
    r
}

/// The characters of `v` from position `from` on.
pub fn tail_from(v: &Vec<char>, from: usize) -> (r: Vec<char>)
    requires
        from <= v.len(),
    ensures
        r@ == v@.skip(from as int),
{
    let mut r: Vec<char> = Vec::new();
    let mut i: usize = from;
    while i < v.len()
        invariant
            from <= i <= v.len(),
            r@ == v@.subrange(from as int, i as int),
        decreases v.len() - i,
    {
        r.push(v[i]);
        assert(r@ =~= v@.subrange(from as int, i + 1));
        i = i + 1;
    }
    assert(r@ =~= v@.skip(from as int));
    r
}

pub proof fn lemma_split_first_at(s: Seq<char>, sep: char, i: int)
    requires
        0 <= i < s.len(),
        s[i] == sep,
        forall|j: int| 0 <= j < i ==> s[j] != sep,
    ensures
        split_first(s, sep) == Some((s.subrange(0, i), s.skip(i + 1))),
    decreases i,
{
    if i > 0 {
        lemma_split_first_at(s.drop_first(), sep, i - 1);
        assert(seq![s[0]] + s.drop_first().subrange(0, i - 1) =~= s.subrange(0, i));
        assert(s.drop_first().skip(i) =~= s.skip(i + 1));
    } else {
        assert(s.subrange(0, 0) =~= Seq::<char>::empty());
        assert(s.drop_first() =~= s.skip(1));
    }
}

proof fn lemma_split_first_none(s: Seq<char>, sep: char)
    requires
        forall|j: int| 0 <= j < s.len() ==> s[j] != sep,
    ensures
        split_first(s, sep) is None,
    decreases s.len(),
{
    if s.len() > 0 {
        lemma_split_first_none(s.drop_first(), sep);
    }
}

/// The parts of `v` before and after its first `sep` (see `split_first`).
pub fn split_once(v: &Vec<char>, sep: char) -> (r: Option<(Vec<char>, Vec<char>)>)
    ensures
        match r {
            Some((a, b)) => split_first(v@, sep) == Some((a@, b@)),
            None => split_first(v@, sep) is None,
        },
{
    let mut i: usize = 0;
    while i < v.len()
        invariant
            i <= v.len(),
            forall|j: int| 0 <= j < i ==> v@[j] != sep,
        decreases v.len() - i,
    {
        if v[i] == sep {
            let mut a: Vec<char> = Vec::new();
            let mut k: usize = 0;
            while k < i
                invariant
                    k <= i,
                    i < v.len(),
                    a@ == v@.subrange(0, k as int),
                decreases i - k,
            {
                a.push(v[k]);
                assert(a@ =~= v@.subrange(0, k + 1));
                k = k + 1;
            }
            let b = tail_from(v, i + 1);
            proof {
                lemma_split_first_at(v@, sep, i as int);
            }
            return Some((a, b));
        }
        i = i + 1;
    }
    proof {
        lemma_split_first_none(v@, sep);
    }
    None
}

proof fn lemma_digits_grow(s: Seq<char>, k: int)
    requires
        0 <= k <= s.len(),
        all_digits(s),
    ensures
        digits_value(s.subrange(0, k)) <= digits_value(s),
        digits_value(s.subrange(0, k)) >= 0,
    decreases s.len() - k,
{
    if k < s.len() {
        lemma_digits_grow(s, k + 1);
        assert(s.subrange(0, k + 1).drop_last() =~= s.subrange(0, k));
        assert(s.subrange(0, k + 1).last() == s[k]);
    } else {
        assert(s.subrange(0, k) =~= s);
        lemma_digits_nonneg(s);
    }
}

proof fn lemma_digits_nonneg(s: Seq<char>)
    requires
        all_digits(s),
    ensures
        digits_value(s) >= 0,
    decreases s.len(),
{
    if s.len() > 0 {
        assert(all_digits(s.drop_last())) by {
            assert forall|i: int| 0 <= i < s.drop_last().len() implies '0' <= #[trigger] s.drop_last()[i]
                && s.drop_last()[i] <= '9' by {
                assert(s.drop_last()[i] == s[i]);
            }
        }
        lemma_digits_nonneg(s.drop_last());
        assert('0' <= s[s.len() - 1]);
    }
}

/// The unsigned number `v` spells, if it is one no larger than `max` (see
/// `parse_unsigned`).
pub fn parse_number(v: &Vec<char>, max: u64) -> (r: Option<u64>)
    ensures
        match r {
            Some(n) => parse_unsigned(v@, max as int) == Some(n as int),
            None => parse_unsigned(v@, max as int) is None,
        },
{
    let start: usize = if v.len() > 0 && v[0] == '+' {
        1
    } else {
        0
    };
    let ghost d = v@.skip(start as int);
    assert(start == 1 ==> d =~= v@.drop_first());
    assert(start == 0 ==> d =~= v@);
    if start >= v.len() {
        return None;
    }
    let mut value: u64 = 0;
    let mut i: usize = start;
    assert(d.subrange(0, 0) =~= Seq::<char>::empty());
    while i < v.len()
        invariant
            start <= i <= v.len(),
            start < v.len(),
            d == v@.skip(start as int),
            d == (if v@.len() > 0 && v@[0] == '+' {
                v@.drop_first()
            } else {
                v@
            }),
            value as int == digits_value(d.subrange(0, (i - start) as int)),
            value <= max,
            all_digits(d.subrange(0, (i - start) as int)),
        decreases v.len() - i,
    {
        let c = v[i];
        let ghost pre = d.subrange(0, (i - start) as int);
        let ghost post = d.subrange(0, (i + 1 - start) as int);
        assert(post.drop_last() =~= pre);
        assert(post.last() == c);
        if c < '0' || c > '9' {
            assert(d[(i - start) as int] == c);
            return None;
        }
        let digit: u64 = ((c as u32) - 48) as u64;
        if digit > max || value > (max - digit) / 10 {
            proof {
                assert(all_digits(post)) by {
                    assert forall|j: int| 0 <= j < post.len() implies '0' <= #[trigger] post[j]
                        && post[j] <= '9' by {
                        if j < pre.len() {
                            assert(post[j] == pre[j]);
                        }
                    }
                }
                assert(digits_value(post) == value * 10 + digit);
                if digit <= max {
                    assert(value * 10 + digit > max) by (nonlinear_arith)
                        requires
                            value > (max - digit) / 10,
                            digit <= max,
                    ;
                }
                if all_digits(d) {
                    lemma_digits_grow(d, (i + 1 - start) as int);
                }
            }
            return None;
        }
        assert(value * 10 + digit <= max) by (nonlinear_arith)
            requires
                value <= (max - digit) / 10,
                digit <= max,
        ;
        value = value * 10 + digit;
        assert(all_digits(post)) by {
            assert forall|j: int| 0 <= j < post.len() implies '0' <= #[trigger] post[j] && post[j]
                <= '9' by {
                if j < pre.len() {
                    assert(post[j] == pre[j]);
                }
            }
        }
        i = i + 1;
    }
    assert(d.subrange(0, (v.len() - start) as int) =~= d);
    Some(value)
}


// ---------- Facts for reading back written text ----------

/// Appending characters other than the separator extends the last piece.
pub proof fn lemma_split_char_extend(s: Seq<char>, l: Seq<char>, sep: char)
    requires
        forall|i: int| 0 <= i < l.len() ==> l[i] != sep,
    ensures
        split_char(s + l, sep) == split_char(s, sep).update(
            split_char(s, sep).len() - 1,
            split_char(s, sep).last() + l,
        ),
    decreases l.len(),
{
    lemma_split_char_nonempty(s, sep);
    if l.len() == 0 {
        assert(s + l =~= s);
        assert(split_char(s, sep).last() + l =~= split_char(s, sep).last());
        assert(split_char(s, sep).update(split_char(s, sep).len() - 1, split_char(s, sep).last())
            =~= split_char(s, sep));
    } else {
        let l0 = l.drop_last();
        lemma_split_char_extend(s, l0, sep);
        assert((s + l).drop_last() =~= s + l0);
        assert((s + l).last() == l.last());
        let p = split_char(s, sep);
        assert(split_char(s + l, sep) =~= p.update(p.len() - 1, p.last() + l0).update(
            p.len() - 1,
            (p.last() + l0).push(l.last()),
        ));
        assert((p.last() + l0).push(l.last()) =~= p.last() + l);
    }
}

/// Appending characters other than white space extends the last piece.
pub proof fn lemma_split_white_extend(s: Seq<char>, l: Seq<char>)
    requires
        forall|i: int| 0 <= i < l.len() ==> !is_white(l[i]),
    ensures
        split_white(s + l) == split_white(s).update(
            split_white(s).len() - 1,
            split_white(s).last() + l,
        ),
    decreases l.len(),
{
    lemma_split_white_nonempty(s);
    if l.len() == 0 {
        assert(s + l =~= s);
        assert(split_white(s).last() + l =~= split_white(s).last());
        assert(split_white(s).update(split_white(s).len() - 1, split_white(s).last())
            =~= split_white(s));
    } else {
        let l0 = l.drop_last();
        lemma_split_white_extend(s, l0);
        assert((s + l).drop_last() =~= s + l0);
        assert((s + l).last() == l.last());
        let p = split_white(s);
        assert(split_white(s + l) =~= p.update(p.len() - 1, p.last() + l0).update(
            p.len() - 1,
            (p.last() + l0).push(l.last()),
        ));
        assert((p.last() + l0).push(l.last()) =~= p.last() + l);
    }
}

/// A string with no white space at either end is its own trim.
pub proof fn lemma_trim_plain(l: Seq<char>)
    requires
        l.len() > 0,
        !is_white(l[0]),
        !is_white(l.last()),
    ensures
        trim(l) == l,
{
}

/// The lines of `s` followed by one more line `l`: where `s` is empty or
/// ends a line, `l` holds no newline and needs no trimming, the lines are
/// those of `s` and then `l`.
pub proof fn lemma_content_append_line(s: Seq<char>, l: Seq<char>)
    requires
        s.len() == 0 || s.last() == '\n',
        forall|i: int| 0 <= i < l.len() ==> l[i] != '\n',
        trim(l) == l,
        l.len() > 0,
    ensures
        content_lines(s + l + seq!['\n']) == content_lines(s).push(l),
{
    let p = split_char(s, '\n');
    lemma_split_char_nonempty(s, '\n');
    let q = p.drop_last();
    assert(p.last() == Seq::<char>::empty()) by {
        if s.len() > 0 {
            assert(s.drop_last() + seq![s.last()] =~= s);
        }
    }
    assert(p =~= q.push(Seq::<char>::empty()));
    lemma_split_char_extend(s, l, '\n');
    assert(Seq::<char>::empty() + l =~= l);
    let t = s + l + seq!['\n'];
    assert(t.drop_last() =~= s + l);
    assert(split_char(t, '\n') =~= q.push(l).push(Seq::<char>::empty()));
    assert(trim(Seq::<char>::empty()) == Seq::<char>::empty());
    let qt = q.map_values(|l: Seq<char>| trim(l));
    let a = split_char(t, '\n').map_values(|l: Seq<char>| trim(l));
    let b = p.map_values(|l: Seq<char>| trim(l));
    assert(a =~= qt.push(l).push(Seq::<char>::empty()));
    assert(b =~= qt.push(Seq::<char>::empty()));
    assert(a.drop_last() =~= qt.push(l));
    assert(qt.push(l).drop_last() =~= qt);
    assert(b.drop_last() =~= qt);
    assert(non_empty(a) == non_empty(qt.push(l)));
    assert(non_empty(qt.push(l)) == non_empty(qt).push(l));
    assert(non_empty(b) == non_empty(qt));
}

/// The words of `s` followed by one more word `t`, where `s` is empty or
/// ends in white space.
pub proof fn lemma_words_append(s: Seq<char>, t: Seq<char>)
    requires
        s.len() == 0 || is_white(s.last()),
        forall|i: int| 0 <= i < t.len() ==> !is_white(t[i]),
        t.len() > 0,
    ensures
        words(s + t) == words(s).push(t),
        words(s + t + seq![' ']) == words(s).push(t),
{
    let p = split_white(s);
    lemma_split_white_nonempty(s);
    let q = p.drop_last();
    assert(p.last() == Seq::<char>::empty()) by {
        if s.len() > 0 {
            assert(s.drop_last() + seq![s.last()] =~= s);
        }
    }
    assert(p =~= q.push(Seq::<char>::empty()));
    lemma_split_white_extend(s, t);
    assert(Seq::<char>::empty() + t =~= t);
    assert(split_white(s + t) =~= q.push(t));
    assert(q.push(t).drop_last() =~= q);
    assert(p.drop_last() =~= q);
    assert(non_empty(q.push(t)) == non_empty(q).push(t));
    assert(non_empty(p) == non_empty(q));
    let u = s + t + seq![' '];
    assert(u.drop_last() =~= s + t);
    assert(is_white(' '));
    assert(split_white(u) =~= q.push(t).push(Seq::<char>::empty()));
    assert(q.push(t).push(Seq::<char>::empty()).drop_last() =~= q.push(t));
    assert(non_empty(q.push(t).push(Seq::<char>::empty())) == non_empty(q.push(t)));
}

/// The decimal numeral of `n` is a non-empty string of digits that spells
/// `n`.
pub proof fn lemma_decimal_digits(n: nat)
    ensures
        decimal(n).len() > 0,
        all_digits(decimal(n)),
        digits_value(decimal(n)) == n,
    decreases n,
{
    if n >= 10 {
        lemma_decimal_digits(n / 10);
        let d = decimal(n / 10);
        let c = digit_char(n % 10);
        assert(decimal(n) == d.push(c));
        assert(decimal(n).drop_last() =~= d);
        assert(c as int == 48 + n % 10);
        assert(digits_value(decimal(n)) == digits_value(d) * 10 + (c as int - 48));
        assert((n / 10) * 10 + n % 10 == n) by (nonlinear_arith);
        assert forall|i: int| 0 <= i < decimal(n).len() implies '0' <= #[trigger] decimal(n)[i]
            && decimal(n)[i] <= '9' by {
            if i < d.len() {
                assert(decimal(n)[i] == d[i]);
            }
        }
    } else {
        assert(decimal(n).drop_last() =~= Seq::<char>::empty());
        assert(digit_char(n) as int == 48 + n);
        assert(digits_value(decimal(n)) == digits_value(Seq::<char>::empty()) * 10 + (digit_char(n) as int - 48));
        assert forall|i: int| 0 <= i < decimal(n).len() implies '0' <= #[trigger] decimal(n)[i]
            && decimal(n)[i] <= '9' by {
            assert(decimal(n)[i] == digit_char(n));
        }
    }
}

/// A digit is neither white space nor a newline, '+', 'x' or ','.
pub open spec fn plain_digits(s: Seq<char>) -> bool {
    forall|i: int|
        0 <= i < s.len() ==> !is_white(#[trigger] s[i]) && s[i] != '\n' && s[i] != '+' && s[i]
            != 'x' && s[i] != ','
}

/// The decimal numeral of `n` reads back as `n`, and holds only digits.
pub proof fn lemma_decimal_reads_back(n: nat, max: int)
    requires
        n <= max,
    ensures
        parse_unsigned(decimal(n), max) == Some(n as int),
        plain_digits(decimal(n)),
        decimal(n).len() > 0,
{
    lemma_decimal_digits(n);
    let d = decimal(n);
    assert forall|i: int| 0 <= i < d.len() implies !is_white(#[trigger] d[i]) && d[i] != '\n'
        && d[i] != '+' && d[i] != 'x' && d[i] != ',' by {
        assert('0' <= d[i] && d[i] <= '9');
    }
    assert('0' <= d[0]);
}

} // verus!
