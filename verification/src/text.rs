//! Character-level text handling: whitespace, splitting into pieces and
//! lines, trimming, and moving between `&str`/`String` and `Vec<char>`.
use vstd::prelude::*;

verus! {

/// The characters with the Unicode `White_Space` property, which is what
/// `char::is_whitespace` tests.
pub open spec fn spec_is_whitespace(c: char) -> bool {
    let u = c as u32;
    ||| 0x09 <= u <= 0x0D
    ||| u == 0x20
    ||| u == 0x85
    ||| u == 0xA0
    ||| u == 0x1680
    ||| 0x2000 <= u <= 0x200A
    ||| u == 0x2028
    ||| u == 0x2029
    ||| u == 0x202F
    ||| u == 0x205F
    ||| u == 0x3000
}

/// Whether `c` is a Unicode whitespace character.
pub fn is_whitespace(c: char) -> (r: bool)
    ensures
        r == spec_is_whitespace(c),
{
    let u = c as u32;
    (0x09 <= u && u <= 0x0D) || u == 0x20 || u == 0x85 || u == 0xA0 || u == 0x1680 || (0x2000
        <= u && u <= 0x200A) || u == 0x2028 || u == 0x2029 || u == 0x202F || u == 0x205F || u
        == 0x3000
}

/// `c` with an ASCII lowercase letter turned into its uppercase letter, as
/// `char::to_ascii_uppercase` gives it.
pub open spec fn spec_ascii_upper(c: char) -> char {
    if 'a' <= c && c <= 'z' {
        ((c as u8) - 32u8) as char
    } else {
        c
    }
}

/// `c` in ASCII uppercase.
pub fn ascii_upper(c: char) -> (r: char)
    ensures
        r == spec_ascii_upper(c),
{
    if 'a' <= c && c <= 'z' {
        ((c as u8) - 32u8) as char
    } else {
        c
    }
}

/// What separates the pieces of a text.
#[derive(Clone, Copy, Debug, PartialEq, Eq, Structural)]
pub enum Separator {
    /// One given character.
    Char(char),
    /// Any whitespace character.
    Whitespace,
}

pub open spec fn separates(sep: Separator, c: char) -> bool {
    match sep {
        Separator::Char(s) => c == s,
        Separator::Whitespace => spec_is_whitespace(c),
    }
}

/// The pieces of `s` between separators, empty pieces included: a text with
/// `k` separators has `k + 1` pieces.
pub open spec fn split_spec(s: Seq<char>, sep: Separator) -> Seq<Seq<char>>
    decreases s.len(),
{
    if s.len() == 0 {
        seq![Seq::<char>::empty()]
    } else {
        let init = split_spec(s.drop_last(), sep);
        if separates(sep, s.last()) {
            init.push(Seq::<char>::empty())
        } else {
            init.update(init.len() - 1, init.last().push(s.last()))
        }
    }
}

/// The pieces of `s` that whitespace separates, without empty ones.
pub open spec fn split_whitespace_spec(s: Seq<char>) -> Seq<Seq<char>> {
    split_spec(s, Separator::Whitespace).filter(|p: Seq<char>| p.len() > 0)
}

/// A piece without the carriage return that ends it, if one does.
pub open spec fn strip_cr(p: Seq<char>) -> Seq<char> {
    if p.len() > 0 && p.last() == '\r' {
        p.drop_last()
    } else {
        p
    }
}

/// The lines of a text: the pieces between `'\n'`, each without a final
/// `'\r'` where a `'\n'` follows it; a last empty piece is no line, so that
/// a final line ending changes nothing.
pub open spec fn lines_spec(s: Seq<char>) -> Seq<Seq<char>> {
    let pieces = split_spec(s, Separator::Char('\n'));
    let body = pieces.drop_last().map_values(|p: Seq<char>| strip_cr(p));
    if pieces.last().len() == 0 {
        body
    } else {
        body.push(pieces.last())
    }
}

pub open spec fn trim_start_spec(s: Seq<char>) -> Seq<char>
    decreases s.len(),
{
    if s.len() > 0 && spec_is_whitespace(s[0]) {
        trim_start_spec(s.drop_first())
    } else {
        s
    }
}

pub open spec fn trim_end_spec(s: Seq<char>) -> Seq<char>
    decreases s.len(),
{
    if s.len() > 0 && spec_is_whitespace(s.last()) {
        trim_end_spec(s.drop_last())
    } else {
        s
    }
}

/// `s` without leading and trailing whitespace.
pub open spec fn trim_spec(s: Seq<char>) -> Seq<char> {
    trim_end_spec(trim_start_spec(s))
}

/// The views of a sequence of character vectors.
pub open spec fn vecs_view(v: Seq<Vec<char>>) -> Seq<Seq<char>> {
    v.map_values(|x: Vec<char>| x@)
}

/// The views of a sequence of strings.
pub open spec fn strings_view(v: Seq<String>) -> Seq<Seq<char>> {
    v.map_values(|x: String| x@)
}

pub proof fn lemma_split_nonempty(s: Seq<char>, sep: Separator)
    ensures
        split_spec(s, sep).len() >= 1,
    decreases s.len(),
{
    if s.len() > 0 {
        lemma_split_nonempty(s.drop_last(), sep);
    }
}

/// Whether no character of `s` is `c`.
pub open spec fn free_of(s: Seq<char>, c: char) -> bool {
    forall|k: int| 0 <= k < s.len() ==> #[trigger] s[k] != c
}

/// Whether no character of `s` is whitespace.
pub open spec fn free_of_whitespace(s: Seq<char>) -> bool {
    forall|k: int| 0 <= k < s.len() ==> !spec_is_whitespace(#[trigger] s[k])
}

/// Splitting a text at a separator splits it into the pieces before it and
/// the pieces after it.
pub proof fn lemma_split_at_separator(a: Seq<char>, c: char, b: Seq<char>, sep: Separator)
    requires
        separates(sep, c),
    ensures
        split_spec(a + seq![c] + b, sep) == split_spec(a, sep) + split_spec(b, sep),
    decreases b.len(),
{
    let s = a + seq![c] + b;
    if b.len() == 0 {
        assert(s.drop_last() =~= a);
        assert(s.last() == c);
    } else {
        let b0 = b.drop_last();
        assert(s.drop_last() =~= a + seq![c] + b0);
        assert(s.last() == b.last());
        lemma_split_at_separator(a, c, b0, sep);
        lemma_split_nonempty(b0, sep);
        lemma_split_nonempty(a, sep);
        let pa = split_spec(a, sep);
        let pb = split_spec(b0, sep);
        if separates(sep, b.last()) {
            assert((pa + pb).push(Seq::<char>::empty()) =~= pa + pb.push(Seq::<char>::empty()));
        } else {
            assert((pa + pb).update(
                (pa + pb).len() - 1,
                (pa + pb).last().push(b.last()),
            ) =~= pa + pb.update(pb.len() - 1, pb.last().push(b.last())));
        }
    }
}

/// A text without separators is one piece.
pub proof fn lemma_split_single(s: Seq<char>, sep: Separator)
    requires
        forall|k: int| 0 <= k < s.len() ==> !separates(sep, #[trigger] s[k]),
    ensures
        split_spec(s, sep) == seq![s],
    decreases s.len(),
{
    if s.len() > 0 {
        lemma_split_single(s.drop_last(), sep);
        assert(s.drop_last().push(s.last()) =~= s);
        assert(!separates(sep, s[s.len() - 1]));
    } else {
        assert(s =~= Seq::<char>::empty());
    }
}

/// Two texts free of a separator character, with it between them, split
/// into those two texts.
pub proof fn lemma_split_two(a: Seq<char>, c: char, b: Seq<char>)
    requires
        free_of(a, c),
        free_of(b, c),
    ensures
        split_spec(a + seq![c] + b, Separator::Char(c)) == seq![a, b],
{
    lemma_split_at_separator(a, c, b, Separator::Char(c));
    lemma_split_single(a, Separator::Char(c));
    lemma_split_single(b, Separator::Char(c));
    assert(seq![a] + seq![b] =~= seq![a, b]);
}

/// The text of the given lines, each ended by a line feed.
pub open spec fn text_of_lines(ls: Seq<Seq<char>>) -> Seq<char>
    decreases ls.len(),
{
    if ls.len() == 0 {
        Seq::empty()
    } else {
        text_of_lines(ls.drop_last()) + ls.last() + seq!['\n']
    }
}

proof fn lemma_split_lines_then(ls: Seq<Seq<char>>, l: Seq<char>)
    requires
        forall|k: int| 0 <= k < ls.len() ==> free_of(#[trigger] ls[k], '\n'),
        free_of(l, '\n'),
    ensures
        split_spec(text_of_lines(ls) + l, Separator::Char('\n')) == ls.push(l),
    decreases ls.len(),
{
    let nl = Separator::Char('\n');
    if ls.len() == 0 {
        assert(text_of_lines(ls) + l =~= l);
        lemma_split_single(l, nl);
        assert(ls.push(l) =~= seq![l]);
    } else {
        let init = ls.drop_last();
        let last = ls.last();
        assert(free_of(ls[ls.len() - 1], '\n'));
        assert forall|k: int| 0 <= k < init.len() implies free_of(#[trigger] init[k], '\n') by {
            assert(init[k] == ls[k]);
        }
        lemma_split_lines_then(init, last);
        assert(text_of_lines(ls) + l =~= (text_of_lines(init) + last) + seq!['\n'] + l);
        lemma_split_at_separator(text_of_lines(init) + last, '\n', l, nl);
        lemma_split_single(l, nl);
        assert(init.push(last) + seq![l] =~= ls.push(l));
    }
}

/// Lines that hold no line feed and do not end with a carriage return,
/// each ended by a line feed, read back as themselves.
pub proof fn law_lines_read_back(ls: Seq<Seq<char>>)
    requires
        forall|k: int| 0 <= k < ls.len() ==> free_of(#[trigger] ls[k], '\n'),
        forall|k: int| 0 <= k < ls.len() ==> strip_cr(#[trigger] ls[k]) == ls[k],
    ensures
        lines_spec(text_of_lines(ls)) == ls,
{
    let nl = Separator::Char('\n');
    lemma_split_lines_then(ls, Seq::empty());
    assert(text_of_lines(ls) + Seq::<char>::empty() =~= text_of_lines(ls));
    let pieces = split_spec(text_of_lines(ls), nl);
    assert(pieces.drop_last() =~= ls);
    assert(pieces.drop_last().map_values(|p: Seq<char>| strip_cr(p)) =~= ls);
}

/// Splits `s` at every separator, keeping empty pieces.
pub fn split(s: &Vec<char>, sep: Separator) -> (r: Vec<Vec<char>>)
    ensures
        vecs_view(r@) == split_spec(s@, sep),
{
    let mut pieces: Vec<Vec<char>> = Vec::new();
    let mut cur: Vec<char> = Vec::new();
    let n = s.len();
    let mut i: usize = 0;
    assert(s@.take(0) =~= Seq::<char>::empty());
    while i < n
        invariant
            n == s@.len(),
            i <= n,
            vecs_view(pieces@).push(cur@) == split_spec(s@.take(i as int), sep),
        decreases n - i,
    {
        let c = s[i];
        let ghost prev = s@.take(i as int);
        assert(s@.take(i + 1).drop_last() =~= prev);
        assert(s@.take(i + 1).last() == c);
        proof {
            lemma_split_nonempty(prev, sep);
        }
        let is_sep = match sep {
            Separator::Char(x) => c == x,
            Separator::Whitespace => is_whitespace(c),
        };
        let ghost old_pieces = vecs_view(pieces@);
        let ghost old_cur = cur@;
        if is_sep {
            let done = cur;
            pieces.push(done);
            cur = Vec::new();
            assert(vecs_view(pieces@) =~= old_pieces.push(old_cur));
        } else {
            cur.push(c);
            assert(vecs_view(pieces@).push(cur@) =~= old_pieces.push(old_cur).update(
                old_pieces.len() as int,
                old_cur.push(c),
            ));
        }
        i = i + 1;
    }
    assert(s@.take(n as int) =~= s@);
    pieces.push(cur);
    assert(vecs_view(pieces@) =~= vecs_view(pieces@.drop_last()).push(pieces@.last()@));
    pieces
}

/// Splits `s` into its lines, as `str::lines` does.
pub fn lines(s: &Vec<char>) -> (r: Vec<Vec<char>>)
    ensures
        vecs_view(r@) == lines_spec(s@),
{
    let pieces = split(s, Separator::Char('\n'));
    let ghost pv = split_spec(s@, Separator::Char('\n'));
    proof {
        lemma_split_nonempty(s@, Separator::Char('\n'));
    }
    let n = pieces.len();
    let mut out: Vec<Vec<char>> = Vec::new();
    let mut i: usize = 0;
    while i + 1 < n
        invariant
            n == pieces@.len(),
            n >= 1,
            vecs_view(pieces@) == pv,
            i + 1 <= n,
            vecs_view(out@) == pv.take(i as int).map_values(|p: Seq<char>| strip_cr(p)),
        decreases n - i,
    {
        let mut line = pieces[i].clone();
        assert(line@ == pv[i as int]);
        let len = line.len();
        if len > 0 && line[len - 1] == '\r' {
            line.pop();
        }
        assert(line@ == strip_cr(pv[i as int]));
        let ghost before = vecs_view(out@);
        out.push(line);
        assert(vecs_view(out@) =~= before.push(line@));
        assert(pv.take(i + 1).map_values(|p: Seq<char>| strip_cr(p)) =~= pv.take(i as int).map_values(
            |p: Seq<char>| strip_cr(p),
        ).push(strip_cr(pv[i as int])));
        i = i + 1;
    }
    assert(pv.take(i as int) =~= pv.drop_last());
    let last = pieces[n - 1].clone();
    assert(last@ == pv.last());
    if last.len() > 0 {
        let ghost before = vecs_view(out@);
        out.push(last);
        assert(vecs_view(out@) =~= before.push(last@));
    }
    out
}

proof fn lemma_trim_start_skip(s: Seq<char>, a: int)
    requires
        0 <= a < s.len(),
        spec_is_whitespace(s[a]),
    ensures
        trim_start_spec(s.subrange(a, s.len() as int)) == trim_start_spec(
            s.subrange(a + 1, s.len() as int),
        ),
{
    assert(s.subrange(a, s.len() as int).drop_first() =~= s.subrange(a + 1, s.len() as int));
}

proof fn lemma_trim_end_skip(s: Seq<char>, a: int, b: int)
    requires
        0 <= a < b <= s.len(),
        spec_is_whitespace(s[b - 1]),
    ensures
        trim_end_spec(s.subrange(a, b)) == trim_end_spec(s.subrange(a, b - 1)),
{
    assert(s.subrange(a, b).drop_last() =~= s.subrange(a, b - 1));
}

/// A copy of `s[from..to]`.
pub fn copy_range(s: &Vec<char>, from: usize, to: usize) -> (r: Vec<char>)
    requires
        from <= to <= s@.len(),
    ensures
        r@ == s@.subrange(from as int, to as int),
{
    let mut out: Vec<char> = Vec::new();
    let mut i = from;
    while i < to
        invariant
            from <= i <= to,
            to <= s@.len(),
            out@ == s@.subrange(from as int, i as int),
        decreases to - i,
    {
        out.push(s[i]);
        assert(out@ =~= s@.subrange(from as int, i + 1));
        i = i + 1;
    }
    out
}

/// `s` without leading and trailing whitespace, as `str::trim` gives it.
pub fn trim(s: &Vec<char>) -> (r: Vec<char>)
    ensures
        r@ == trim_spec(s@),
{
    let n = s.len();
    let mut a: usize = 0;
    assert(s@.subrange(0, n as int) =~= s@);
    while a < n && is_whitespace(s[a])
        invariant
            a <= n,
            n == s@.len(),
            trim_start_spec(s@) == trim_start_spec(s@.subrange(a as int, n as int)),
        decreases n - a,
    {
        proof {
            lemma_trim_start_skip(s@, a as int);
        }
        a = a + 1;
    }
    let ghost t = s@.subrange(a as int, n as int);
    assert(trim_start_spec(s@) == t);
    let mut b: usize = n;
    while b > a && is_whitespace(s[b - 1])
        invariant
            a <= b <= n,
            n == s@.len(),
            t == s@.subrange(a as int, n as int),
            trim_end_spec(t) == trim_end_spec(s@.subrange(a as int, b as int)),
        decreases b - a,
    {
        proof {
            lemma_trim_end_skip(s@, a as int, b as int);
        }
        b = b - 1;
    }
    let r = copy_range(s, a, b);
    assert(trim_end_spec(s@.subrange(a as int, b as int)) == s@.subrange(a as int, b as int));
    r
}

/// The pieces of `s` that whitespace separates, as `str::split_whitespace`
/// gives them.
pub fn split_whitespace(s: &Vec<char>) -> (r: Vec<Vec<char>>)
    ensures
        vecs_view(r@) == split_whitespace_spec(s@),
{
    let pieces = split(s, Separator::Whitespace);
    let ghost pv = split_spec(s@, Separator::Whitespace);
    let ghost pred = |p: Seq<char>| p.len() > 0;
    let n = pieces.len();
    let mut out: Vec<Vec<char>> = Vec::new();
    let mut i: usize = 0;
    assert(pv.take(0) =~= Seq::<Seq<char>>::empty());
    assert(pv.take(0).filter(pred) =~= Seq::<Seq<char>>::empty()) by {
        reveal(Seq::filter);
    }
    while i < n
        invariant
            n == pieces@.len(),
            vecs_view(pieces@) == pv,
            i <= n,
            pred == (|p: Seq<char>| p.len() > 0),
            vecs_view(out@) == pv.take(i as int).filter(pred),
        decreases n - i,
    {
        assert(pv.take(i + 1).drop_last() =~= pv.take(i as int));
        assert(pv.take(i + 1).last() == pv[i as int]);
        assert(pieces@[i as int]@ == pv[i as int]);
        assert(pv.take(i + 1).filter(pred) == if pv[i as int].len() > 0 {
            pv.take(i as int).filter(pred).push(pv[i as int])
        } else {
            pv.take(i as int).filter(pred)
        }) by {
            reveal(Seq::filter);
        }
        if pieces[i].len() > 0 {
            let ghost before = vecs_view(out@);
            out.push(pieces[i].clone());
            assert(vecs_view(out@) =~= before.push(pv[i as int]));
        }
        i = i + 1;
    }
    assert(pv.take(n as int) =~= pv);
    out
}

/// The characters of `s`, in order.
pub fn chars_of(s: &str) -> (r: Vec<char>)
    ensures
        r@ == s@,
{
    let mut out: Vec<char> = Vec::new();
    for c in it: s.chars()
        invariant
            out@ == it.seq().take(it.index() as int),
    {
        out.push(c);
    }
    out
}

/// Wrapper of `String::push`: appends `c` to `s`.
#[verifier::external_body]
pub(crate) fn push_char(s: &mut String, c: char)
    ensures
        final(s)@ == old(s)@.push(c),
{
    s.push(c);
}

/// Wrapper of `String::pop`: removes the last character, if there is one.
#[verifier::external_body]
pub(crate) fn pop_char(s: &mut String)
    ensures
        final(s)@ == if old(s)@.len() > 0 {
            old(s)@.drop_last()
        } else {
            old(s)@
        },
{
    s.pop();
}

/// A string holding the characters of `v`.
pub fn string_from_chars(v: &Vec<char>) -> (r: String)
    ensures
        r@ == v@,
{
    let mut out = String::new();
    let mut i: usize = 0;
    while i < v.len()
        invariant
            i <= v@.len(),
            out@ == v@.take(i as int),
        decreases v@.len() - i,
    {
        push_char(&mut out, v[i]);
        assert(out@ =~= v@.take(i + 1));
        i = i + 1;
    }
    assert(v@.take(i as int) =~= v@);
    out
}

/// The decimal digit for `d < 10`.
pub open spec fn digit_spec(d: nat) -> char {
    if d == 0 {
        '0'
    } else if d == 1 {
        '1'
    } else if d == 2 {
        '2'
    } else if d == 3 {
        '3'
    } else if d == 4 {
        '4'
    } else if d == 5 {
        '5'
    } else if d == 6 {
        '6'
    } else if d == 7 {
        '7'
    } else if d == 8 {
        '8'
    } else {
        '9'
    }
}

/// The decimal notation of `n`, without leading zeros, as `{}` formats it.
pub open spec fn decimal_spec(n: nat) -> Seq<char>
    decreases n,
{
    if n < 10 {
        seq![digit_spec(n)]
    } else {
        decimal_spec(n / 10).push(digit_spec(n % 10))
    }
}

fn digit(d: usize) -> (r: char)
    requires
        d < 10,
    ensures
        r == digit_spec(d as nat),
{
    if d == 0 {
        '0'
    } else if d == 1 {
        '1'
    } else if d == 2 {
        '2'
    } else if d == 3 {
        '3'
    } else if d == 4 {
        '4'
    } else if d == 5 {
        '5'
    } else if d == 6 {
        '6'
    } else if d == 7 {
        '7'
    } else if d == 8 {
        '8'
    } else {
        '9'
    }
}

/// Appends the decimal notation of `n` to `s`.
pub fn push_decimal(s: &mut String, n: usize)
    ensures
        final(s)@ == old(s)@ + decimal_spec(n as nat),
    decreases n,
{
    if n >= 10 {
        push_decimal(s, n / 10);
    }
    push_char(s, digit(n % 10));
    assert(final(s)@ =~= old(s)@ + decimal_spec(n as nat));
}

/// The strings of `list` with `sep` between each two of them.
pub open spec fn join_spec(list: Seq<Seq<char>>, sep: Seq<char>) -> Seq<char>
    decreases list.len(),
{
    if list.len() == 0 {
        Seq::empty()
    } else if list.len() == 1 {
        list[0]
    } else {
        join_spec(list.drop_last(), sep) + sep + list.last()
    }
}

/// Joins `list` with `sep` between each two strings, as `[String]::join` does.
pub fn join(list: &Vec<String>, sep: &str) -> (r: String)
    ensures
        r@ == join_spec(strings_view(list@), sep@),
{
    let mut out = String::new();
    let ghost lv = strings_view(list@);
    let mut i: usize = 0;
    assert(lv.take(0) =~= Seq::<Seq<char>>::empty());
    while i < list.len()
        invariant
            i <= list@.len(),
            lv == strings_view(list@),
            out@ == join_spec(lv.take(i as int), sep@),
        decreases list@.len() - i,
    {
        assert(lv.take(i + 1).drop_last() =~= lv.take(i as int));
        assert(lv.take(i + 1).last() == list@[i as int]@);
        if i > 0 {
            out.append(sep);
        } else {
            assert(lv.take(i as int) =~= Seq::<Seq<char>>::empty());
        }
        out.append(list[i].as_str());
        assert(lv.take(i + 1).len() == i + 1);
        if i == 0 {
            assert(lv.take(1)[0] == list@[0]@);
            assert(out@ =~= join_spec(lv.take(i + 1), sep@));
        } else {
            assert(out@ =~= join_spec(lv.take(i + 1), sep@));
        }
        i = i + 1;
    }
    assert(lv.take(i as int) =~= lv);
    out
}

/// What `str::to_lowercase` gives for a text: Unicode's lowercase mapping.
pub uninterp spec fn lowercase(s: Seq<char>) -> Seq<char>;

/// Wrapper of `str::to_lowercase`. The result is named `lowercase` of the
/// text; the one further fact stated is that an empty text stays empty.
#[verifier::external_body]
pub(crate) fn to_lowercase(s: &str) -> (r: String)
    ensures
        r@ == lowercase(s@),
        s@.len() == 0 ==> r@.len() == 0,
{
    s.to_lowercase()
}

/// Whether `needle` occurs in `hay` as a contiguous part.
pub open spec fn contains_spec(hay: Seq<char>, needle: Seq<char>) -> bool {
    exists|i: int|
        0 <= i && i + needle.len() <= hay.len() && #[trigger] hay.subrange(i, i + needle.len())
            == needle
}

fn matches_at(hay: &Vec<char>, needle: &Vec<char>, at: usize) -> (r: bool)
    requires
        at + needle@.len() <= hay@.len(),
    ensures
        r == (hay@.subrange(at as int, at + needle@.len()) == needle@),
{
    let n = hay.len();
    let mut j: usize = 0;
    while j < needle.len()
        invariant
            n == hay@.len(),
            j <= needle@.len(),
            at + needle@.len() <= hay@.len(),
            forall|k: int| 0 <= k < j ==> hay@[at + k] == needle@[k],
        decreases needle@.len() - j,
    {
        if hay[at + j] != needle[j] {
            assert(hay@.subrange(at as int, at + needle@.len())[j as int] != needle@[j as int]);
            return false;
        }
        j = j + 1;
    }
    assert(hay@.subrange(at as int, at + needle@.len()) =~= needle@);
    true
}

/// Whether `needle` occurs in `hay`, as `str::contains` tests it.
pub fn contains(hay: &Vec<char>, needle: &Vec<char>) -> (r: bool)
    ensures
        r == contains_spec(hay@, needle@),
{
    if needle.len() > hay.len() {
        return false;
    }
    if needle.len() == 0 {
        assert(hay@.subrange(0int, 0int + needle@.len()) =~= needle@);
        return true;
    }
    let n = hay.len();
    let last = n - needle.len();
    let mut i: usize = 0;
    while i <= last
        invariant
            n == hay@.len(),
            last + needle@.len() == hay@.len(),
            needle@.len() >= 1,
            forall|k: int|
                0 <= k < i ==> #[trigger] hay@.subrange(k, k + needle@.len()) != needle@,
        decreases last + 1 - i,
    {
        if matches_at(hay, needle, i) {
            return true;
        }
        i = i + 1;
    }
    false
}

} // verus!
