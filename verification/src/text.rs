//! Character-level text handling: whitespace, trimming, lines, words,
//! prefixes, substrings, ordering of strings and decimal rendering.
use vstd::prelude::*;

verus! {

/// Unicode `White_Space` characters, the set that `char::is_whitespace`
/// and therefore `str::trim` and `str::split_whitespace` use.
pub open spec fn is_ws(c: char) -> bool {
    ||| c == '\t'
    ||| c == '\n'
    ||| c == '\u{0B}'
    ||| c == '\u{0C}'
    ||| c == '\r'
    ||| c == ' '
    ||| c == '\u{85}'
    ||| c == '\u{A0}'
    ||| c == '\u{1680}'
    ||| ('\u{2000}' <= c && c <= '\u{200A}')
    ||| c == '\u{2028}'
    ||| c == '\u{2029}'
    ||| c == '\u{202F}'
    ||| c == '\u{205F}'
    ||| c == '\u{3000}'
}

/// Whether `c` is a Unicode whitespace character.
pub fn is_whitespace(c: char) -> (res: bool)
    ensures
        res == is_ws(c),
{
    c == '\t' || c == '\n' || c == '\u{0B}' || c == '\u{0C}' || c == '\r' || c == ' '
        || c == '\u{85}' || c == '\u{A0}' || c == '\u{1680}' || ('\u{2000}' <= c && c
        <= '\u{200A}') || c == '\u{2028}' || c == '\u{2029}' || c == '\u{202F}' || c
        == '\u{205F}' || c == '\u{3000}'
}

/// `s` without its leading whitespace.
pub open spec fn trim_start(s: Seq<char>) -> Seq<char>
    decreases s.len(),
{
    if s.len() > 0 && is_ws(s[0]) {
        trim_start(s.drop_first())
    } else {
        s
    }
}

/// `s` without its trailing whitespace.
pub open spec fn trim_end(s: Seq<char>) -> Seq<char>
    decreases s.len(),
{
    if s.len() > 0 && is_ws(s.last()) {
        trim_end(s.drop_last())
    } else {
        s
    }
}

/// `s` without leading and trailing whitespace.
pub open spec fn trim(s: Seq<char>) -> Seq<char> {
    trim_end(trim_start(s))
}

/// The run of non-whitespace characters that `s` starts with.
pub open spec fn take_word(s: Seq<char>) -> Seq<char>
    decreases s.len(),
{
    if s.len() > 0 && !is_ws(s[0]) {
        seq![s[0]] + take_word(s.drop_first())
    } else {
        Seq::empty()
    }
}

/// The first whitespace-separated word of `s`, or the empty text if there is none.
pub open spec fn first_word(s: Seq<char>) -> Seq<char> {
    take_word(trim_start(s))
}

/// What follows the first word of `s`.
pub open spec fn after_first_word(s: Seq<char>) -> Seq<char> {
    trim_start(s).skip(first_word(s).len() as int)
}

/// The characters of `s`, in order.
pub fn chars_of(s: &str) -> (res: Vec<char>)
    ensures
        res@ == s@,
{
    broadcast use vstd::string::group_string_axioms;

    let mut v: Vec<char> = Vec::new();
    for c in it: s.chars()
        invariant
            v@ == it.seq().take(it.index() as int),
            it.seq() == s@,
    {
        v.push(c);
    }
    v
}

/// The first index at or after `from` that holds no whitespace (or the end).
fn skip_whitespace(cs: &Vec<char>, from: usize) -> (i: usize)
    requires
        from <= cs@.len(),
    ensures
        from <= i <= cs@.len(),
        trim_start(cs@.skip(from as int)) == cs@.skip(i as int),
        forall|k: int| from <= k < i ==> is_ws(#[trigger] cs@[k]),
{
    let n = cs.len();
    let mut i = from;
    while i < n && is_whitespace(cs[i])
        invariant
            n == cs@.len(),
            from <= i <= n,
            trim_start(cs@.skip(from as int)) == trim_start(cs@.skip(i as int)),
            forall|k: int| from <= k < i ==> is_ws(#[trigger] cs@[k]),
        decreases n - i,
    {
        assert(cs@.skip(i as int).drop_first() =~= cs@.skip(i + 1));
        i = i + 1;
    }
    i
}

/// The first index at or after `from` that holds whitespace (or the end).
fn skip_word(cs: &Vec<char>, from: usize) -> (j: usize)
    requires
        from <= cs@.len(),
    ensures
        from <= j <= cs@.len(),
        take_word(cs@.skip(from as int)) == cs@.subrange(from as int, j as int),
{
    let n = cs.len();
    let mut j = from;
    while j < n && !is_whitespace(cs[j])
        invariant
            n == cs@.len(),
            from <= j <= n,
            take_word(cs@.skip(from as int)) == cs@.subrange(from as int, j as int) + take_word(
                cs@.skip(j as int),
            ),
        decreases n - j,
    {
        assert(cs@.skip(j as int).drop_first() =~= cs@.skip(j + 1));
        assert(cs@.subrange(from as int, j as int) + seq![cs@[j as int]] =~= cs@.subrange(
            from as int,
            j + 1,
        ));
        j = j + 1;
    }
    assert(take_word(cs@.skip(j as int)) =~= Seq::<char>::empty());
    assert(cs@.subrange(from as int, j as int) + Seq::<char>::empty() =~= cs@.subrange(
        from as int,
        j as int,
    ));
    j
}

/// `s` with leading and trailing whitespace removed, as `str::trim` does.
pub fn trim_str(s: &str) -> (res: String)
    ensures
        res@ == trim(s@),
{
    let cs = chars_of(s);
    let n = cs.len();
    let i = skip_whitespace(&cs, 0);
    assert(cs@.skip(0) =~= cs@);
    let mut j = n;
    assert(cs@.skip(i as int) =~= cs@.subrange(i as int, n as int));
    while j > i && is_whitespace(cs[j - 1])
        invariant
            n == cs@.len(),
            i <= j <= n,
            trim_end(cs@.subrange(i as int, n as int)) == trim_end(
                cs@.subrange(i as int, j as int),
            ),
        decreases j,
    {
        assert(cs@.subrange(i as int, j as int).drop_last() =~= cs@.subrange(
            i as int,
            j - 1,
        ));
        j = j - 1;
    }
    String::from_str(s.substring_char(i, j))
}

/// The first two whitespace-separated words of `s`; a missing word is the empty text.
pub fn first_two_words(s: &str) -> (res: (String, String))
    ensures
        res.0@ == first_word(s@),
        res.1@ == first_word(after_first_word(s@)),
{
    let cs = chars_of(s);
    assert(cs@.skip(0) =~= cs@);
    let s1 = skip_whitespace(&cs, 0);
    let e1 = skip_word(&cs, s1);
    assert(after_first_word(s@) =~= cs@.skip(e1 as int));
    let s2 = skip_whitespace(&cs, e1);
    let e2 = skip_word(&cs, s2);
    (String::from_str(s.substring_char(s1, e1)), String::from_str(s.substring_char(s2, e2)))
}


/// Index of the first line feed in `s`, or its length when there is none.
pub open spec fn newline_pos(s: Seq<char>) -> nat
    decreases s.len(),
{
    if s.len() == 0 {
        0
    } else if s[0] == '\n' {
        0
    } else {
        1 + newline_pos(s.drop_first())
    }
}

/// `l` without one trailing carriage return.
pub open spec fn strip_cr(l: Seq<char>) -> Seq<char> {
    if l.len() > 0 && l.last() == '\r' {
        l.drop_last()
    } else {
        l
    }
}

/// The lines of `s` as `str::lines` yields them: split at `\n`, a `\r` right
/// before the `\n` dropped, and no empty last line after a final line ending.
pub open spec fn lines(s: Seq<char>) -> Seq<Seq<char>>
    decreases s.len(),
{
    if s.len() == 0 {
        Seq::empty()
    } else if newline_pos(s) < s.len() {
        seq![strip_cr(s.take(newline_pos(s) as int))] + lines(s.skip(newline_pos(s) as int + 1))
    } else {
        seq![s]
    }
}

/// The views of a sequence of strings.
pub open spec fn views(v: Seq<String>) -> Seq<Seq<char>> {
    v.map_values(|x: String| x@)
}

/// The first line feed of `s` is at `k` when none comes before and one is
/// there (or `k` is the end).
pub proof fn lemma_newline_pos(s: Seq<char>, k: nat)
    requires
        k <= s.len(),
        forall|i: int| 0 <= i < k ==> s[i] != '\n',
        k == s.len() || s[k as int] == '\n',
    ensures
        newline_pos(s) == k,
    decreases k,
{
    if k > 0 {
        lemma_newline_pos(s.drop_first(), (k - 1) as nat);
    }
}

/// The lines of `s`, as `str::lines` splits them.
pub fn split_lines(s: &str) -> (res: Vec<String>)
    ensures
        views(res@) == lines(s@),
{
    let cs = chars_of(s);
    let n = cs.len();
    let mut out: Vec<String> = Vec::new();
    let mut start: usize = 0;
    let mut p: usize = 0;
    assert(cs@.skip(0) =~= cs@);
    assert(views(out@) + lines(cs@) =~= lines(cs@));
    while p < n
        invariant
            n == cs@.len(),
            cs@ == s@,
            start <= p <= n,
            forall|i: int| start <= i < p ==> cs@[i] != '\n',
            lines(s@) == views(out@) + lines(cs@.skip(start as int)),
        decreases n - p,
    {
        if cs[p] == '\n' {
            let ghost rest = cs@.skip(start as int);
            proof {
                lemma_newline_pos(rest, (p - start) as nat);
                assert(rest.take((p - start) as int) =~= cs@.subrange(start as int, p as int));
                assert(rest.skip((p - start) + 1) =~= cs@.skip(p + 1));
            }
            let mut e = p;
            if e > start && cs[e - 1] == '\r' {
                e = e - 1;
            }
            let line = String::from_str(s.substring_char(start, e));
            assert(line@ == strip_cr(cs@.subrange(start as int, p as int)));
            let ghost old_out = out@;
            out.push(line);
            assert(views(out@) =~= views(old_out).push(line@));
            assert(views(out@) + lines(cs@.skip(p + 1)) =~= views(old_out) + lines(rest));
            start = p + 1;
        }
        p = p + 1;
    }
    if start < n {
        let ghost rest = cs@.skip(start as int);
        proof {
            lemma_newline_pos(rest, (n - start) as nat);
            assert(rest =~= cs@.subrange(start as int, n as int));
        }
        let line = String::from_str(s.substring_char(start, n));
        let ghost old_out = out@;
        out.push(line);
        assert(views(out@) =~= views(old_out).push(line@));
        assert(views(out@) =~= views(old_out) + lines(rest));
    } else {
        assert(lines(cs@.skip(start as int)) =~= Seq::<Seq<char>>::empty());
        assert(views(out@) + Seq::<Seq<char>>::empty() =~= views(out@));
    }
    out
}

/// Whether `v` holds a string with the text `s`.
pub fn contains_text(v: &Vec<String>, s: &String) -> (res: bool)
    ensures
        res == views(v@).contains(s@),
{
    let n = v.len();
    let mut i: usize = 0;
    while i < n
        invariant
            n == v@.len(),
            i <= n,
            forall|j: int| 0 <= j < i ==> views(v@)[j] != s@,
        decreases n - i,
    {
        if v[i] == *s {
            assert(views(v@)[i as int] == s@);
            return true;
        }
        i = i + 1;
    }
    false
}

/// Whether `s` starts with `p`.
pub open spec fn starts_with(s: Seq<char>, p: Seq<char>) -> bool {
    p.len() <= s.len() && s.take(p.len() as int) == p
}

/// What follows `prefix` in `s`, when `s` starts with it (`str::strip_prefix`).
pub fn strip_prefix(s: &str, prefix: &str) -> (res: Option<String>)
    ensures
        res is Some <==> starts_with(s@, prefix@),
        res matches Some(r) ==> r@ == s@.skip(prefix@.len() as int),
{
    let cs = chars_of(s);
    let ps = chars_of(prefix);
    if ps.len() > cs.len() {
        return None;
    }
    let mut i: usize = 0;
    while i < ps.len()
        invariant
            ps@ == prefix@,
            cs@ == s@,
            ps@.len() <= cs@.len(),
            i <= ps@.len(),
            cs@.take(i as int) == ps@.take(i as int),
        decreases ps@.len() - i,
    {
        if cs[i] != ps[i] {
            assert(cs@.take(ps@.len() as int)[i as int] != ps@[i as int]);
            return None;
        }
        assert(cs@.take(i + 1) =~= cs@.take(i as int).push(cs@[i as int]));
        assert(ps@.take(i + 1) =~= ps@.take(i as int).push(ps@[i as int]));
        i = i + 1;
    }
    assert(ps@.take(ps@.len() as int) =~= ps@);
    Some(String::from_str(s.substring_char(ps.len(), cs.len())))
}

/// `sub` occurs in `s` starting at index `i`.
pub open spec fn occurs_at(s: Seq<char>, sub: Seq<char>, i: int) -> bool {
    0 <= i && i + sub.len() <= s.len() && s.subrange(i, i + sub.len()) == sub
}

/// `sub` occurs somewhere in `s`.
pub open spec fn contains(s: Seq<char>, sub: Seq<char>) -> bool {
    exists|i: int| occurs_at(s, sub, i)
}

/// Whether `cs` holds `sub` at index `i`.
fn matches_at(cs: &Vec<char>, sub: &Vec<char>, i: usize) -> (res: bool)
    requires
        i + sub@.len() <= cs@.len(),
    ensures
        res == occurs_at(cs@, sub@, i as int),
{
    let m = sub.len();
    let n = cs.len();
    let mut k: usize = 0;
    while k < m
        invariant
            m == sub@.len(),
            n == cs@.len(),
            i + m <= cs@.len(),
            k <= m,
            forall|j: int| 0 <= j < k ==> cs@[i + j] == sub@[j],
        decreases m - k,
    {
        if cs[i + k] != sub[k] {
            assert(cs@.subrange(i as int, i + m)[k as int] != sub@[k as int]);
            return false;
        }
        k = k + 1;
    }
    assert(cs@.subrange(i as int, i + m) =~= sub@);
    true
}

/// Whether `sub` occurs in `s` (`str::contains` with a text pattern).
pub fn contains_str(s: &str, sub: &str) -> (res: bool)
    ensures
        res == contains(s@, sub@),
{
    let cs = chars_of(s);
    let ps = chars_of(sub);
    if ps.len() > cs.len() {
        return false;
    }
    let last = cs.len() - ps.len();
    let mut i: usize = 0;
    loop
        invariant
            cs@ == s@,
            ps@ == sub@,
            last == cs@.len() - ps@.len(),
            i <= last,
            forall|j: int| 0 <= j < i ==> !occurs_at(s@, sub@, j),
        decreases last - i,
    {
        if matches_at(&cs, &ps, i) {
            return true;
        }
        if i == last {
            return false;
        }
        i = i + 1;
    }
}


/// Strict lexicographic order on texts, comparing characters by code point.
/// This is the order of `String`'s `Ord`, which compares the UTF-8 bytes: the
/// byte order of UTF-8 encodings is the code point order of the characters.
pub open spec fn text_lt(a: Seq<char>, b: Seq<char>) -> bool
    decreases a.len(),
{
    if a.len() == 0 {
        b.len() > 0
    } else if b.len() == 0 {
        false
    } else if a[0] != b[0] {
        a[0] < b[0]
    } else {
        text_lt(a.drop_first(), b.drop_first())
    }
}

/// No text is below itself.
pub proof fn lemma_text_lt_irreflexive(a: Seq<char>)
    ensures
        !text_lt(a, a),
    decreases a.len(),
{
    if a.len() > 0 {
        lemma_text_lt_irreflexive(a.drop_first());
    }
}

/// Of two different texts, one is below the other, and not both.
pub proof fn lemma_text_lt_total(a: Seq<char>, b: Seq<char>)
    ensures
        a != b ==> (text_lt(a, b) || text_lt(b, a)),
        !(text_lt(a, b) && text_lt(b, a)),
    decreases a.len(),
{
    if a.len() > 0 && b.len() > 0 {
        lemma_text_lt_total(a.drop_first(), b.drop_first());
        if a[0] == b[0] && a.drop_first() == b.drop_first() {
            assert(a =~= seq![a[0]] + a.drop_first());
            assert(b =~= seq![b[0]] + b.drop_first());
        }
    } else if a.len() == 0 && b.len() == 0 {
        assert(a =~= b);
    }
}

/// The order on texts is transitive.
pub proof fn lemma_text_lt_transitive(a: Seq<char>, b: Seq<char>, c: Seq<char>)
    requires
        text_lt(a, b),
        text_lt(b, c),
    ensures
        text_lt(a, c),
    decreases a.len(),
{
    if a.len() > 0 && b.len() > 0 && c.len() > 0 && a[0] == b[0] && b[0] == c[0] {
        lemma_text_lt_transitive(a.drop_first(), b.drop_first(), c.drop_first());
    }
}

/// Whether `a` comes before `b` in the order of `String`.
pub fn text_less(a: &Vec<char>, b: &Vec<char>) -> (res: bool)
    ensures
        res == text_lt(a@, b@),
{
    let n = a.len();
    let m = b.len();
    let mut i: usize = 0;
    assert(a@.skip(0) =~= a@);
    assert(b@.skip(0) =~= b@);
    while i < n && i < m && a[i] == b[i]
        invariant
            n == a@.len(),
            m == b@.len(),
            i <= n,
            i <= m,
            text_lt(a@, b@) == text_lt(a@.skip(i as int), b@.skip(i as int)),
        decreases n - i,
    {
        assert(a@.skip(i as int).drop_first() =~= a@.skip(i + 1));
        assert(b@.skip(i as int).drop_first() =~= b@.skip(i + 1));
        i = i + 1;
    }
    if i == n {
        i < m
    } else if i == m {
        false
    } else {
        a[i] < b[i]
    }
}

/// The decimal digit character for `d < 10`.
pub open spec fn digit_char(d: nat) -> char {
    if d == 0 {
        '0'
    } else if d == 1 {
        '1'
    } else if d == 2 {
        '2'
    } else if d == 3 {
        '3'
    } else if d == 4 {
        '4'
    } else if d == 5 {
        '5'
    } else if d == 6 {
        '6'
    } else if d == 7 {
        '7'
    } else if d == 8 {
        '8'
    } else {
        '9'
    }
}

/// The decimal notation of `n`, as `format!("{}", n)` writes it.
pub open spec fn dec(n: nat) -> Seq<char>
    decreases n,
{
    if n < 10 {
        seq![digit_char(n)]
    } else {
        dec(n / 10).push(digit_char(n % 10))
    }
}

fn digit_text(d: usize) -> (res: &'static str)
    requires
        d < 10,
    ensures
        res@ == seq![digit_char(d as nat)],
{
    proof {
        reveal_strlit("0");
        reveal_strlit("1");
        reveal_strlit("2");
        reveal_strlit("3");
        reveal_strlit("4");
        reveal_strlit("5");
        reveal_strlit("6");
        reveal_strlit("7");
        reveal_strlit("8");
        reveal_strlit("9");
    }
    if d == 0 {
        "0"
    } else if d == 1 {
        "1"
    } else if d == 2 {
        "2"
    } else if d == 3 {
        "3"
    } else if d == 4 {
        "4"
    } else if d == 5 {
        "5"
    } else if d == 6 {
        "6"
    } else if d == 7 {
        "7"
    } else if d == 8 {
        "8"
    } else {
        assert(seq!['9'] =~= "9"@);
        "9"
    }
}

/// `n` written in decimal.
pub fn decimal(n: usize) -> (res: String)
    ensures
        res@ == dec(n as nat),
    decreases n,
{
    if n < 10 {
        String::from_str(digit_text(n))
    } else {
        let mut s = decimal(n / 10);
        s.append(digit_text(n % 10));
        s
    }
}

/// `parts` joined with `sep` between each two (`[&str]::join`).
pub open spec fn join(parts: Seq<Seq<char>>, sep: Seq<char>) -> Seq<char>
    decreases parts.len(),
{
    if parts.len() == 0 {
        Seq::empty()
    } else if parts.len() == 1 {
        parts[0]
    } else {
        join(parts.drop_last(), sep) + sep + parts.last()
    }
}

/// `parts` joined with `sep`.
pub fn join_strings(parts: &Vec<String>, sep: &str) -> (res: String)
    ensures
        res@ == join(views(parts@), sep@),
{
    let mut res = String::new();
    let n = parts.len();
    let mut i: usize = 0;
    while i < n
        invariant
            n == parts@.len(),
            i <= n,
            res@ == join(views(parts@).take(i as int), sep@),
        decreases n - i,
    {
        assert(views(parts@).take(i + 1).drop_last() =~= views(parts@).take(i as int));
        if i > 0 {
            res.append(sep);
        }
        res.append(parts[i].as_str());
        i = i + 1;
    }
    assert(views(parts@).take(n as int) =~= views(parts@));
    res
}

/// `s` followed by spaces up to `width` characters (the `{:<width}` format).
pub open spec fn pad_right(s: Seq<char>, width: nat) -> Seq<char> {
    if s.len() >= width {
        s
    } else {
        s + Seq::new((width - s.len()) as nat, |_i: int| ' ')
    }
}

/// `s` padded with spaces on the right to `width` characters.
pub fn pad_right_str(s: &str, width: usize) -> (res: String)
    ensures
        res@ == pad_right(s@, width as nat),
{
    let mut res = String::from_str(s);
    let n = s.unicode_len();
    if n >= width {
        return res;
    }
    let mut k = n;
    proof {
        reveal_strlit(" ");
        assert(res@ =~= s@ + Seq::new(0, |_i: int| ' '));
    }
    while k < width
        invariant
            n == s@.len(),
            n <= k <= width,
            res@ == s@ + Seq::new((k - n) as nat, |_i: int| ' '),
        decreases width - k,
    {
        proof {
            reveal_strlit(" ");
            assert(" "@ =~= seq![' ']);
        }
        res.append(" ");
        assert(res@ =~= s@ + Seq::new((k + 1 - n) as nat, |_i: int| ' '));
        k = k + 1;
    }
    res
}

/// The lower-case form of a text, as `str::to_lowercase` gives it; what that
/// is follows the Unicode case tables and is not written out here.
pub uninterp spec fn lower(s: Seq<char>) -> Seq<char>;

/// Calls `str::to_lowercase`; its result is `lower` of the argument.
#[verifier::external_body]
pub(crate) fn lowercase(s: &str) -> (res: String)
    ensures
        res@ == lower(s@),
{
    s.to_lowercase()
}

} // verus!
