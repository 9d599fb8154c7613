//! Text handling shared by the extractors and the LaTeX renderer: whitespace,
//! words, trimming, joining, and the UTF-8 length of text.
use vstd::prelude::*;
use vstd::utf8::*;

verus! {

/// Appends one character to a string (`String::push`).
#[verifier::external_body]
pub(crate) fn push_char(s: &mut String, c: char)
    ensures
        final(s)@ == old(s)@.push(c),
{
    s.push(c);
}

/// The text that UTF-8 bytes encode (`String::from_utf8`): it succeeds exactly
/// when the bytes are valid UTF-8.
#[verifier::external_body]
pub(crate) fn string_from_utf8(bytes: Vec<u8>) -> (r: Result<String, std::string::FromUtf8Error>)
    ensures
        r is Ok <==> valid_utf8(bytes@),
        r matches Ok(s) ==> s@ == decode_utf8(bytes@),
{
    String::from_utf8(bytes)
}

/// The characters of a string, in order.
pub fn chars_of(s: &str) -> (v: Vec<char>)
    ensures
        v@ == s@,
{
    let mut v: Vec<char> = Vec::new();
    for c in it: s.chars()
        invariant
            v@ == it.seq().take(it.index() as int),
    {
        v.push(c);
    }
    v
}

/// The string made of the given characters.
pub fn string_of(v: &Vec<char>) -> (s: String)
    ensures
        s@ == v@,
{
    let mut s = String::new();
    let mut i: usize = 0;
    while i < v.len()
        invariant
            i <= v.len(),
            s@ == v@.take(i as int),
        decreases v.len() - i,
    {
        push_char(&mut s, v[i]);
        assert(v@.take(i + 1) == v@.take(i as int).push(v@[i as int]));
        i = i + 1;
    }
    assert(v@.take(v.len() as int) == v@);
    s
}

/// The views of a sequence of strings.
pub open spec fn views(v: Seq<String>) -> Seq<Seq<char>> {
    v.map_values(|s: String| s@)
}

/// Unicode `White_Space`, the set of characters that `char::is_whitespace`
/// accepts.
pub open spec fn is_ws(c: char) -> bool {
    let u = c as u32;
    ||| 0x9 <= u <= 0xD
    ||| u == 0x20
    ||| u == 0x85
    ||| u == 0xA0
    ||| u == 0x1680
    ||| 0x2000 <= u <= 0x200A
    ||| u == 0x2028
    ||| u == 0x2029
    ||| u == 0x202F
    ||| u == 0x205F
    ||| u == 0x3000
}

/// Whether `c` is white space.
pub fn is_whitespace(c: char) -> (b: bool)
    ensures
        b == is_ws(c),
{
    let u = c as u32;
    (0x9 <= u && u <= 0xD) || u == 0x20 || u == 0x85 || u == 0xA0 || u == 0x1680 || (0x2000 <= u
        && u <= 0x200A) || u == 0x2028 || u == 0x2029 || u == 0x202F || u == 0x205F || u == 0x3000
}

/// The words of `s`: its maximal runs of characters that are not white space,
/// in order (what `str::split_whitespace` yields).
pub open spec fn words(s: Seq<char>) -> Seq<Seq<char>>
    decreases s.len(),
{
    if s.len() == 0 {
        seq![]
    } else {
        let prev = words(s.drop_last());
        let c = s.last();
        if is_ws(c) {
            prev
        } else if s.len() >= 2 && !is_ws(s[s.len() - 2]) {
            prev.update(prev.len() - 1, prev.last().push(c))
        } else {
            prev.push(seq![c])
        }
    }
}

/// A text that ends in a character that is not white space has a word.
pub proof fn lemma_words_nonempty(s: Seq<char>)
    requires
        s.len() > 0,
        !is_ws(s.last()),
    ensures
        words(s).len() > 0,
    decreases s.len(),
{
    if s.len() >= 2 && !is_ws(s[s.len() - 2]) {
        let t = s.drop_last();
        assert(t.last() == s[s.len() - 2]);
        lemma_words_nonempty(t);
    }
}

/// The last step of building the words of a text keeps them non-empty: the
/// word it adds or extends has a character.
pub proof fn lemma_words_nonempty_when_joined(s: Seq<char>)
    requires
        s.len() > 0,
        forall|i: int| 0 <= i < words(s.drop_last()).len() ==> #[trigger] words(s.drop_last())[i].len() > 0,
    ensures
        forall|i: int| 0 <= i < words(s).len() ==> #[trigger] words(s)[i].len() > 0,
{
    let prev = words(s.drop_last());
    let c = s.last();
    if !is_ws(c) && s.len() >= 2 && !is_ws(s[s.len() - 2]) {
        let t = s.drop_last();
        assert(t.last() == s[s.len() - 2]);
        lemma_words_nonempty(t);
        assert forall|i: int| 0 <= i < words(s).len() implies #[trigger] words(s)[i].len() > 0 by {
            if i < prev.len() - 1 {
                assert(words(s)[i] == prev[i]);
            }
        }
    } else if !is_ws(c) {
        assert forall|i: int| 0 <= i < words(s).len() implies #[trigger] words(s)[i].len() > 0 by {
            if i < prev.len() {
                assert(words(s)[i] == prev[i]);
            }
        }
    }
}

/// The words of `s`, as `str::split_whitespace` splits them.
pub fn split_whitespace(s: &str) -> (ws: Vec<String>)
    ensures
        views(ws@) == words(s@),
{
    let v = chars_of(s);
    let mut out: Vec<String> = Vec::new();
    let mut cur = String::new();
    let mut in_word = false;
    let mut i: usize = 0;
    while i < v.len()
        invariant
            i <= v.len(),
            v@ == s@,
            in_word == (i > 0 && !is_ws(v@[i - 1])),
            !in_word ==> cur@.len() == 0,
            in_word ==> views(out@).push(cur@) == words(v@.take(i as int)),
            !in_word ==> views(out@) == words(v@.take(i as int)),
        decreases v.len() - i,
    {
        let c = v[i];
        let ghost prefix = v@.take(i as int);
        let ghost next = v@.take(i + 1);
        assert(next.drop_last() == prefix);
        assert(next.last() == c);
        if is_whitespace(c) {
            if in_word {
                out.push(cur);
                cur = String::new();
                in_word = false;
            }
        } else {
            if in_word {
                proof {
                    lemma_words_nonempty(prefix);
                    assert(next[next.len() - 2] == v@[i - 1]);
                }
            }
            let ghost old_cur = cur@;
            push_char(&mut cur, c);
            proof {
                if !in_word {
                    assert(cur@ == seq![c]);
                } else {
                    assert(words(next) == views(out@).push(old_cur).update(
                        views(out@).len() as int,
                        old_cur.push(c),
                    ));
                }
            }
            in_word = true;
        }
        i = i + 1;
    }
    if in_word {
        out.push(cur);
    }
    assert(v@.take(v.len() as int) == v@);
    out
}

/// `s` without its leading white space.
pub open spec fn trim_start(s: Seq<char>) -> Seq<char>
    decreases s.len(),
{
    if s.len() > 0 && is_ws(s[0]) {
        trim_start(s.drop_first())
    } else {
        s
    }
}

/// `s` without its trailing white space.
pub open spec fn trim_end(s: Seq<char>) -> Seq<char>
    decreases s.len(),
{
    if s.len() > 0 && is_ws(s.last()) {
        trim_end(s.drop_last())
    } else {
        s
    }
}

/// `s` without its leading and trailing white space (what `str::trim` gives).
pub open spec fn trim(s: Seq<char>) -> Seq<char> {
    trim_end(trim_start(s))
}

/// The characters of `v` without leading and trailing white space.
pub fn trim_chars(v: &Vec<char>) -> (r: Vec<char>)
    ensures
        r@ == trim(v@),
{
    let n = v.len();
    let mut a: usize = 0;
    assert(v@.subrange(0, n as int) == v@);
    while a < n && is_whitespace(v[a])
        invariant
            a <= n,
            n == v@.len(),
            trim_start(v@) == trim_start(v@.subrange(a as int, n as int)),
        decreases n - a,
    {
        assert(v@.subrange(a as int, n as int).drop_first() == v@.subrange(a + 1, n as int));
        a = a + 1;
    }
    assert(trim_start(v@) == v@.subrange(a as int, n as int));
    let mut b: usize = n;
    while b > a && is_whitespace(v[b - 1])
        invariant
            a <= b <= n,
            n == v@.len(),
            trim(v@) == trim_end(v@.subrange(a as int, b as int)),
        decreases b - a,
    {
        assert(v@.subrange(a as int, b as int).drop_last() == v@.subrange(a as int, b - 1));
        b = b - 1;
    }
    assert(trim(v@) == v@.subrange(a as int, b as int));
    let mut r: Vec<char> = Vec::new();
    let mut i: usize = a;
    while i < b
        invariant
            a <= i <= b <= n,
            n == v@.len(),
            r@ == v@.subrange(a as int, i as int),
        decreases b - i,
    {
        r.push(v[i]);
        assert(v@.subrange(a as int, i + 1) == v@.subrange(a as int, i as int).push(v@[i as int]));
        i = i + 1;
    }
    r
}

/// `s` without its leading and trailing white space.
pub fn trim_str(s: &str) -> (r: String)
    ensures
        r@ == trim(s@),
{
    let v = chars_of(s);
    let t = trim_chars(&v);
    string_of(&t)
}

/// The parts joined with `sep` between each two of them.
pub open spec fn join(parts: Seq<Seq<char>>, sep: Seq<char>) -> Seq<char>
    decreases parts.len(),
{
    if parts.len() == 0 {
        seq![]
    } else if parts.len() == 1 {
        parts[0]
    } else {
        join(parts.drop_last(), sep) + sep + parts.last()
    }
}

/// Where part `i` starts when the parts are laid end to end with a
/// separator of length `sep_len` after each.
pub open spec fn part_offset(parts: Seq<Seq<char>>, sep_len: nat, i: int) -> int
    decreases i,
{
    if i <= 0 {
        0
    } else {
        part_offset(parts, sep_len, i - 1) + parts[i - 1].len() + sep_len
    }
}

/// `s` is the parts one after the other with `sep` between each two of them
/// and nothing else: every part stands whole at its place, in order, and
/// exactly `sep` stands between two neighbours.
pub open spec fn laid_out(s: Seq<char>, parts: Seq<Seq<char>>, sep: Seq<char>) -> bool {
    &&& s.len() == (if parts.len() == 0 {
        0
    } else {
        part_offset(parts, sep.len(), parts.len() as int) - sep.len()
    })
    &&& forall|i: int|
        #![trigger parts[i]]
        0 <= i < parts.len() ==> s.subrange(
            part_offset(parts, sep.len(), i),
            part_offset(parts, sep.len(), i) + parts[i].len(),
        ) == parts[i]
    &&& forall|i: int|
        #![trigger parts[i]]
        0 <= i < parts.len() - 1 ==> s.subrange(
            part_offset(parts, sep.len(), i) + parts[i].len(),
            part_offset(parts, sep.len(), i + 1),
        ) == sep
}

/// Offsets only look at the parts before them.
proof fn lemma_part_offset_prefix(parts: Seq<Seq<char>>, sep_len: nat, i: int)
    requires
        0 <= i < parts.len(),
    ensures
        part_offset(parts.drop_last(), sep_len, i) == part_offset(parts, sep_len, i),
        part_offset(parts, sep_len, i) >= 0,
    decreases i,
{
    if i > 0 {
        lemma_part_offset_prefix(parts, sep_len, i - 1);
    }
}

/// The length of joined parts: the parts and a separator between each two.
proof fn lemma_join_len(parts: Seq<Seq<char>>, sep: Seq<char>)
    requires
        parts.len() > 0,
    ensures
        join(parts, sep).len() == part_offset(parts, sep.len(), parts.len() as int) - sep.len(),
    decreases parts.len(),
{
    let n = parts.len() as int;
    let l = sep.len();
    assert(part_offset(parts, l, n) == part_offset(parts, l, n - 1) + parts[n - 1].len() + l);
    if n > 1 {
        let p = parts.drop_last();
        lemma_join_len(p, sep);
        lemma_part_offset_prefix(parts, l, n - 1);
        assert(join(parts, sep) == join(p, sep) + sep + parts.last());
    } else {
        assert(part_offset(parts, l, 0) == 0);
    }
}

/// Part `i` stands whole at its offset in the joined parts.
proof fn lemma_join_part(parts: Seq<Seq<char>>, sep: Seq<char>, i: int)
    requires
        0 <= i < parts.len(),
    ensures
        join(parts, sep).subrange(
            part_offset(parts, sep.len(), i),
            part_offset(parts, sep.len(), i) + parts[i].len(),
        ) == parts[i],
    decreases parts.len(),
{
    let l = sep.len();
    let n = parts.len() as int;
    let s = join(parts, sep);
    lemma_part_offset_prefix(parts, l, i);
    if n == 1 {
        assert(s.subrange(0, parts[0].len() as int) =~= parts[0]);
    } else {
        let p = parts.drop_last();
        let a = join(p, sep);
        lemma_join_len(p, sep);
        assert(s == a + sep + parts.last());
        lemma_part_offset_prefix(parts, l, n - 1);
        if i < n - 1 {
            lemma_join_part(p, sep, i);
            lemma_part_offset_bound(p, l, i + 1, n - 1);
            assert(p[i] == parts[i]);
            assert(s.subrange(part_offset(parts, l, i), part_offset(parts, l, i) + parts[i].len())
                =~= a.subrange(part_offset(p, l, i), part_offset(p, l, i) + p[i].len()));
        } else {
            lemma_part_offset_prefix(parts, l, n - 2);
            assert(p[n - 2] == parts[n - 2]);
            assert(s.subrange(part_offset(parts, l, i), part_offset(parts, l, i) + parts[i].len())
                =~= parts.last());
        }
    }
}

/// Exactly the separator stands between part `i` and the next.
proof fn lemma_join_sep(parts: Seq<Seq<char>>, sep: Seq<char>, i: int)
    requires
        0 <= i < parts.len() - 1,
    ensures
        join(parts, sep).subrange(
            part_offset(parts, sep.len(), i) + parts[i].len(),
            part_offset(parts, sep.len(), i + 1),
        ) == sep,
    decreases parts.len(),
{
    let l = sep.len();
    let n = parts.len() as int;
    let s = join(parts, sep);
    let p = parts.drop_last();
    let a = join(p, sep);
    lemma_join_len(p, sep);
    assert(s == a + sep + parts.last());
    lemma_part_offset_prefix(parts, l, i);
    lemma_part_offset_prefix(parts, l, n - 2);
    assert(p[i] == parts[i]);
    assert(p[n - 2] == parts[n - 2]);
    if i < n - 2 {
        lemma_join_sep(p, sep, i);
        lemma_part_offset_prefix(parts, l, i + 1);
        lemma_part_offset_bound(p, l, i + 1, n - 2);
        assert(part_offset(p, l, n - 1) == part_offset(p, l, n - 2) + p[n - 2].len() + l);
        assert(s.subrange(part_offset(parts, l, i) + parts[i].len(), part_offset(parts, l, i + 1))
            =~= a.subrange(part_offset(p, l, i) + p[i].len(), part_offset(p, l, i + 1)));
    } else {
        lemma_part_offset_prefix(parts, l, n - 1);
        assert(s.subrange(part_offset(parts, l, i) + parts[i].len(), part_offset(parts, l, i + 1))
            =~= sep);
    }
}

/// Joining puts the parts one after the other with the separator between
/// each two of them and nothing else.
pub proof fn lemma_join_laid_out(parts: Seq<Seq<char>>, sep: Seq<char>)
    ensures
        laid_out(join(parts, sep), parts, sep),
{
    if parts.len() > 0 {
        lemma_join_len(parts, sep);
    }
    assert forall|i: int| #![trigger parts[i]] 0 <= i < parts.len() implies join(parts, sep).subrange(
        part_offset(parts, sep.len(), i),
        part_offset(parts, sep.len(), i) + parts[i].len(),
    ) == parts[i] by {
        lemma_join_part(parts, sep, i);
    }
    assert forall|i: int| #![trigger parts[i]] 0 <= i < parts.len() - 1 implies join(parts, sep).subrange(
        part_offset(parts, sep.len(), i) + parts[i].len(),
        part_offset(parts, sep.len(), i + 1),
    ) == sep by {
        lemma_join_sep(parts, sep, i);
    }
}

/// Offsets grow: a later part starts no earlier than an earlier one ends.
pub proof fn lemma_part_offset_bound(parts: Seq<Seq<char>>, sep_len: nat, i: int, j: int)
    requires
        0 <= i <= j <= parts.len(),
    ensures
        part_offset(parts, sep_len, i) <= part_offset(parts, sep_len, j),
    decreases j - i,
{
    if i < j {
        lemma_part_offset_bound(parts, sep_len, i, j - 1);
    }
}

/// The strings joined with `sep` between each two of them (`slice::join`).
pub fn join_strings(parts: &Vec<String>, sep: &str) -> (r: String)
    ensures
        r@ == join(views(parts@), sep@),
{
    let mut r = String::new();
    let mut i: usize = 0;
    while i < parts.len()
        invariant
            i <= parts.len(),
            r@ == join(views(parts@).take(i as int), sep@),
        decreases parts.len() - i,
    {
        let ghost before = views(parts@).take(i as int);
        let ghost after = views(parts@).take(i + 1);
        assert(after.drop_last() == before);
        if i != 0 {
            r.append(sep);
        }
        r.append(parts[i].as_str());
        assert(after.last() == parts@[i as int]@);
        if i == 0 {
            assert(r@ == after[0]);
        }
        i = i + 1;
    }
    assert(views(parts@).take(parts.len() as int) == views(parts@));
    r
}

/// The UTF-8 encoding of a concatenation is the concatenation of the
/// encodings.
pub proof fn lemma_encode_utf8_concat(a: Seq<char>, b: Seq<char>)
    ensures
        encode_utf8(a + b) == encode_utf8(a) + encode_utf8(b),
    decreases a.len(),
{
    if a.len() == 0 {
        assert(a + b == b);
        assert(encode_utf8(a) + encode_utf8(b) == encode_utf8(b));
    } else {
        assert((a + b).drop_first() == a.drop_first() + b);
        assert((a + b)[0] == a[0]);
        lemma_encode_utf8_concat(a.drop_first(), b);
    }
}

/// Whether `s` begins with `p`.
pub fn starts_with(s: &Vec<char>, p: &str) -> (b: bool)
    ensures
        b == p@.is_prefix_of(s@),
{
    let pv = chars_of(p);
    if pv.len() > s.len() {
        return false;
    }
    let mut i: usize = 0;
    while i < pv.len()
        invariant
            i <= pv.len() <= s.len(),
            pv@ == p@,
            forall|j: int| 0 <= j < i ==> pv@[j] == s@[j],
        decreases pv.len() - i,
    {
        if pv[i] != s[i] {
            assert(!(p@ =~= s@.subrange(0, p@.len() as int))) by {
                assert(s@.subrange(0, p@.len() as int)[i as int] == s@[i as int]);
            }
            return false;
        }
        i = i + 1;
    }
    assert(p@ =~= s@.subrange(0, p@.len() as int));
    true
}

/// Whether two texts are equal.
pub fn str_eq(a: &str, b: &str) -> (r: bool)
    ensures
        r == (a@ == b@),
{
    let av = chars_of(a);
    let bv = chars_of(b);
    if av.len() != bv.len() {
        return false;
    }
    let mut i: usize = 0;
    while i < av.len()
        invariant
            i <= av.len() == bv.len(),
            av@ == a@,
            bv@ == b@,
            forall|j: int| 0 <= j < i ==> av@[j] == bv@[j],
        decreases av.len() - i,
    {
        if av[i] != bv[i] {
            return false;
        }
        i = i + 1;
    }
    assert(av@ =~= bv@);
    true
}

/// The pieces of `s` between line feeds: one more than it has line feeds.
pub open spec fn split_newlines(s: Seq<char>) -> Seq<Seq<char>>
    decreases s.len(),
{
    if s.len() == 0 {
        seq![seq![]]
    } else {
        let p = split_newlines(s.drop_last());
        if s.last() == '\n' {
            p.push(seq![])
        } else {
            p.update(p.len() - 1, p.last().push(s.last()))
        }
    }
}

pub proof fn lemma_split_newlines_nonempty(s: Seq<char>)
    ensures
        split_newlines(s).len() >= 1,
    decreases s.len(),
{
    if s.len() > 0 {
        lemma_split_newlines_nonempty(s.drop_last());
    }
}

/// Splitting at line feeds a text made of `a`, a line feed and `b` gives the
/// pieces of `a` followed by those of `b`.
pub proof fn lemma_split_newlines_concat(a: Seq<char>, b: Seq<char>)
    ensures
        split_newlines(a + seq!['\n'] + b) == split_newlines(a) + split_newlines(b),
    decreases b.len(),
{
    let t = a + seq!['\n'] + b;
    if b.len() == 0 {
        assert(t == a + seq!['\n']);
        assert(t.drop_last() == a);
        assert(split_newlines(b) == seq![Seq::<char>::empty()]);
        assert(split_newlines(a).push(seq![]) =~= split_newlines(a) + split_newlines(b));
    } else {
        lemma_split_newlines_concat(a, b.drop_last());
        assert(t.drop_last() == a + seq!['\n'] + b.drop_last());
        assert(t.last() == b.last());
        let x = split_newlines(a);
        let y = split_newlines(b.drop_last());
        lemma_split_newlines_nonempty(b.drop_last());
        if b.last() == '\n' {
            assert((x + y).push(seq![]) =~= x + y.push(seq![]));
        } else {
            assert((x + y).update((x + y).len() - 1, (x + y).last().push(b.last())) =~= x + y.update(
                y.len() - 1,
                y.last().push(b.last()),
            ));
        }
    }
}

/// A line without the carriage return that ended it.
pub open spec fn strip_cr(l: Seq<char>) -> Seq<char> {
    if l.len() > 0 && l.last() == '\r' {
        l.drop_last()
    } else {
        l
    }
}

/// The lines of `s`, as `str::lines` yields them: the pieces between line
/// feeds, each without a carriage return just before its line feed, and no
/// empty last piece.
pub open spec fn lines(s: Seq<char>) -> Seq<Seq<char>> {
    let p = split_newlines(s);
    let n = p.len() - 1;
    let full = p.take(n).map_values(|l: Seq<char>| strip_cr(l));
    if p[n].len() == 0 {
        full
    } else {
        full.push(p[n])
    }
}

/// The lines of a text made of `a`, a line feed and `b` are the pieces of
/// `a` (each without a carriage return at its end) followed by the lines of
/// `b`.
pub proof fn lemma_lines_concat(a: Seq<char>, b: Seq<char>)
    ensures
        lines(a + seq!['\n'] + b) == split_newlines(a).map_values(|l: Seq<char>| strip_cr(l)) + lines(b),
{
    lemma_split_newlines_concat(a, b);
    lemma_split_newlines_nonempty(a);
    lemma_split_newlines_nonempty(b);
    let x = split_newlines(a);
    let y = split_newlines(b);
    let p = x + y;
    let n = p.len() - 1;
    assert(p.take(n) =~= x + y.take(y.len() - 1));
    assert(p[n] == y[y.len() - 1]);
    assert((x + y.take(y.len() - 1)).map_values(|l: Seq<char>| strip_cr(l)) =~= x.map_values(
        |l: Seq<char>| strip_cr(l),
    ) + y.take(y.len() - 1).map_values(|l: Seq<char>| strip_cr(l)));
    let xm = x.map_values(|l: Seq<char>| strip_cr(l));
    let ym = y.take(y.len() - 1).map_values(|l: Seq<char>| strip_cr(l));
    if y[y.len() - 1].len() != 0 {
        assert((xm + ym).push(y[y.len() - 1]) =~= xm + ym.push(y[y.len() - 1]));
    }
}

/// What is left after removing leading white space starts with a character
/// that is not white space, if anything is left.
pub proof fn lemma_trim_start_shape(s: Seq<char>)
    ensures
        trim_start(s).len() == 0 || !is_ws(trim_start(s)[0]),
    decreases s.len(),
{
    if s.len() > 0 && is_ws(s[0]) {
        lemma_trim_start_shape(s.drop_first());
    }
}

/// Removing trailing white space keeps a beginning of the text, which ends in
/// a character that is not white space, if anything is left.
pub proof fn lemma_trim_end_shape(s: Seq<char>)
    ensures
        trim_end(s).len() <= s.len(),
        trim_end(s) == s.take(trim_end(s).len() as int),
        trim_end(s).len() == 0 || !is_ws(trim_end(s).last()),
    decreases s.len(),
{
    if s.len() > 0 && is_ws(s.last()) {
        lemma_trim_end_shape(s.drop_last());
        let t = trim_end(s.drop_last());
        assert(s.drop_last().take(t.len() as int) =~= s.take(t.len() as int));
    } else {
        assert(s.take(s.len() as int) =~= s);
    }
}

/// Trimming a trimmed text changes nothing.
pub proof fn lemma_trim_idempotent(s: Seq<char>)
    ensures
        trim(trim(s)) == trim(s),
{
    let t = trim_start(s);
    lemma_trim_start_shape(s);
    lemma_trim_end_shape(t);
    let u = trim_end(t);
    if u.len() > 0 {
        assert(u[0] == t[0]);
    }
    assert(trim_start(u) == u);
    assert(trim_end(u) == u);
}

/// A line that ended in a line feed, without its carriage return.
fn finish_line(cur: &Vec<char>) -> (r: String)
    ensures
        r@ == strip_cr(cur@),
{
    let mut c = cur.clone();
    if c.len() > 0 && c[c.len() - 1] == '\r' {
        c.pop();
        assert(c@ == cur@.drop_last());
    }
    string_of(&c)
}

/// The lines of `s` (`str::lines`).
pub fn lines_of(s: &str) -> (r: Vec<String>)
    ensures
        views(r@) == lines(s@),
{
    let v = chars_of(s);
    let mut done: Vec<String> = Vec::new();
    let mut cur: Vec<char> = Vec::new();
    let mut i: usize = 0;
    proof {
        lemma_split_newlines_nonempty(v@.take(0));
    }
    while i < v.len()
        invariant
            i <= v.len(),
            v@ == s@,
            split_newlines(v@.take(i as int)).len() >= 1,
            views(done@) == split_newlines(v@.take(i as int)).take(
                split_newlines(v@.take(i as int)).len() - 1,
            ).map_values(|l: Seq<char>| strip_cr(l)),
            cur@ == split_newlines(v@.take(i as int)).last(),
        decreases v.len() - i,
    {
        let ghost p = split_newlines(v@.take(i as int));
        let ghost q = split_newlines(v@.take(i + 1));
        assert(v@.take(i + 1).drop_last() == v@.take(i as int));
        assert(v@.take(i + 1).last() == v@[i as int]);
        if v[i] == '\n' {
            let ghost before = done@;
            let line = finish_line(&cur);
            done.push(line);
            cur = Vec::new();
            assert(q == p.push(seq![]));
            assert(q.take(q.len() - 1) == p);
            assert(views(done@) =~= views(before).push(strip_cr(p.last())));
            assert(p =~= p.take(p.len() - 1).push(p.last()));
            assert(views(done@) =~= q.take(q.len() - 1).map_values(|l: Seq<char>| strip_cr(l)));
        } else {
            cur.push(v[i]);
            assert(q.take(q.len() - 1) == p.take(p.len() - 1));
        }
        i = i + 1;
    }
    assert(v@.take(v.len() as int) == v@);
    if cur.len() != 0 {
        let ghost before = done@;
        done.push(string_of(&cur));
        assert(views(done@) =~= views(before).push(cur@));
    }
    done
}

/// `s` with every occurrence of `pat` taken out, scanning from the left
/// (`str::replace(pat, "")`).
pub open spec fn remove_all(s: Seq<char>, pat: Seq<char>) -> Seq<char>
    decreases s.len(),
{
    if pat.len() == 0 || s.len() < pat.len() {
        s
    } else if pat.is_prefix_of(s) {
        remove_all(s.skip(pat.len() as int), pat)
    } else {
        seq![s[0]] + remove_all(s.drop_first(), pat)
    }
}

/// Whether `p` occurs in `s` at position `i`.
fn occurs_at(s: &Vec<char>, p: &Vec<char>, i: usize) -> (b: bool)
    requires
        i <= s.len(),
    ensures
        b == (p@.len() > 0 && s@.len() - i >= p@.len() && p@.is_prefix_of(s@.skip(i as int))),
{
    if p.len() == 0 || s.len() - i < p.len() {
        return false;
    }
    let mut j: usize = 0;
    while j < p.len()
        invariant
            j <= p.len(),
            i + p.len() <= s.len(),
            forall|k: int| 0 <= k < j ==> p@[k] == s@[i + k],
        decreases p.len() - j,
    {
        if p[j] != s[i + j] {
            assert(!(p@ =~= s@.skip(i as int).subrange(0, p@.len() as int))) by {
                assert(s@.skip(i as int).subrange(0, p@.len() as int)[j as int] == s@[i + j]);
            }
            return false;
        }
        j = j + 1;
    }
    assert(p@ =~= s@.skip(i as int).subrange(0, p@.len() as int));
    true
}

/// `s` with every occurrence of `pat` taken out.
pub fn remove_all_chars(s: &Vec<char>, pat: &str) -> (r: Vec<char>)
    ensures
        r@ == remove_all(s@, pat@),
{
    let pv = chars_of(pat);
    let mut r: Vec<char> = Vec::new();
    let mut i: usize = 0;
    assert(s@.skip(0) == s@);
    while i < s.len()
        invariant
            i <= s.len(),
            pv@ == pat@,
            r@ + remove_all(s@.skip(i as int), pat@) == remove_all(s@, pat@),
        decreases s.len() - i,
    {
        let ghost rest = s@.skip(i as int);
        if occurs_at(s, &pv, i) {
            assert(rest.skip(pat@.len() as int) == s@.skip(i + pv.len()));
            i = i + pv.len();
        } else {
            assert(rest.drop_first() == s@.skip(i + 1));
            assert(rest[0] == s@[i as int]);
            proof {
                if pat@.len() == 0 || rest.len() < pat@.len() {
                    assert(remove_all(rest, pat@) == rest);
                    assert(remove_all(rest.drop_first(), pat@) == rest.drop_first());
                    assert(rest == seq![rest[0]] + rest.drop_first());
                }
            }
            let ghost before = r@;
            r.push(s[i]);
            assert(r@ == before + seq![rest[0]]);
            i = i + 1;
        }
    }
    assert(s@.skip(i as int) == Seq::<char>::empty());
    r
}

/// The digit for `d`, below ten.
pub open spec fn digit(d: nat) -> char {
    if d == 0 { '0' } else if d == 1 { '1' } else if d == 2 { '2' } else if d == 3 { '3' } else if d
        == 4 { '4' } else if d == 5 { '5' } else if d == 6 { '6' } else if d == 7 { '7' } else if d
        == 8 { '8' } else { '9' }
}

/// The decimal digits of `n`.
pub open spec fn decimal(n: nat) -> Seq<char>
    decreases n,
{
    if n < 10 {
        seq![digit(n)]
    } else {
        decimal(n / 10).push(digit(n % 10))
    }
}

/// The character for a digit.
pub fn digit_char(d: u64) -> (c: char)
    requires
        d < 10,
    ensures
        c == digit(d as nat),
{
    if d == 0 { '0' } else if d == 1 { '1' } else if d == 2 { '2' } else if d == 3 { '3' } else if d
        == 4 { '4' } else if d == 5 { '5' } else if d == 6 { '6' } else if d == 7 { '7' } else if d
        == 8 { '8' } else { '9' }
}

/// Appends the decimal digits of `n`.
pub fn push_decimal(out: &mut Vec<char>, n: u64)
    ensures
        final(out)@ == old(out)@ + decimal(n as nat),
    decreases n,
{
    if n < 10 {
        out.push(digit_char(n));
        assert(decimal(n as nat) == seq![digit(n as nat)]);
    } else {
        push_decimal(out, n / 10);
        out.push(digit_char(n % 10));
        assert(decimal(n as nat) == decimal((n / 10) as nat).push(digit((n % 10) as nat)));
    }
}

/// A signed number written in decimal, with a minus sign when negative.
pub open spec fn int_text(n: int) -> Seq<char> {
    if n < 0 {
        seq!['-'] + decimal((-n) as nat)
    } else {
        decimal(n as nat)
    }
}

/// A signed number written in decimal (what `Display` writes for it).
pub fn i32_text(n: i32) -> (s: String)
    ensures
        s@ == int_text(n as int),
{
    let mut out: Vec<char> = Vec::new();
    if n < 0 {
        out.push('-');
        let m: u64 = (0i64 - n as i64) as u64;
        push_decimal(&mut out, m);
    } else {
        push_decimal(&mut out, n as u64);
    }
    string_of(&out)
}

} // verus!
