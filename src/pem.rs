use vstd::prelude::*;
use vstd::std_specs::iter::IteratorSpec;

verus! {

/// Unicode white space, as `char::is_whitespace` classifies it.
pub open spec fn is_ws(c: char) -> bool {
    c == '\t' || c == '\n' || c == '\u{0B}' || c == '\u{0C}' || c == '\r' || c == ' '
        || c == '\u{85}' || c == '\u{A0}' || c == '\u{1680}' || ('\u{2000}' <= c && c
        <= '\u{200A}') || c == '\u{2028}' || c == '\u{2029}' || c == '\u{202F}' || c
        == '\u{205F}' || c == '\u{3000}'
}

pub open spec fn trim_start(s: Seq<char>) -> Seq<char>
    decreases s.len(),
{
    if s.len() > 0 && is_ws(s[0]) {
        trim_start(s.drop_first())
    } else {
        s
    }
}

pub open spec fn trim_end(s: Seq<char>) -> Seq<char>
    decreases s.len(),
{
    if s.len() > 0 && is_ws(s.last()) {
        trim_end(s.drop_last())
    } else {
        s
    }
}

/// `s` without white space at either end.
pub open spec fn trim(s: Seq<char>) -> Seq<char> {
    trim_end(trim_start(s))
}

pub open spec fn starts_with(s: Seq<char>, p: Seq<char>) -> bool {
    p.len() <= s.len() && s.subrange(0, p.len() as int) == p
}

/// Scans `s` left to right: the lines already ended by a newline, and the
/// characters of the line still open.
pub open spec fn scan_lines(s: Seq<char>) -> (Seq<Seq<char>>, Seq<char>)
    decreases s.len(),
{
    if s.len() == 0 {
        (seq![], seq![])
    } else {
        let (done, cur) = scan_lines(s.drop_last());
        if s.last() == '\n' {
            (done.push(cur), seq![])
        } else {
            (done, cur.push(s.last()))
        }
    }
}

/// The lines of `s`, split at newlines; a final newline ends the last line
/// and opens no empty one.
pub open spec fn lines_of(s: Seq<char>) -> Seq<Seq<char>> {
    let (done, cur) = scan_lines(s);
    if cur.len() > 0 {
        done.push(cur)
    } else {
        done
    }
}

/// The lines joined with a newline between each two.
pub open spec fn join_lines(ls: Seq<Seq<char>>) -> Seq<char>
    decreases ls.len(),
{
    if ls.len() == 0 {
        seq![]
    } else if ls.len() == 1 {
        ls[0]
    } else {
        join_lines(ls.drop_last()) + seq!['\n'] + ls.last()
    }
}

pub open spec fn begin_marker() -> Seq<char> {
    "-----BEGIN "@
}

pub open spec fn end_marker() -> Seq<char> {
    "-----END "@
}

/// One step of the PEM scan over a line: the blocks found so far and the
/// trimmed lines of the block that is open (empty when none is).
pub open spec fn pem_step(
    state: (Seq<Seq<char>>, Seq<Seq<char>>),
    line: Seq<char>,
) -> (Seq<Seq<char>>, Seq<Seq<char>>) {
    let (chain, cur) = state;
    if starts_with(line, begin_marker()) {
        (chain, seq![trim(line)])
    } else if starts_with(line, end_marker()) {
        (chain.push(join_lines(cur.push(trim(line)))), seq![])
    } else if cur.len() > 0 {
        (chain, cur.push(trim(line)))
    } else {
        (chain, cur)
    }
}

pub open spec fn pem_scan(lines: Seq<Seq<char>>) -> (Seq<Seq<char>>, Seq<Seq<char>>)
    decreases lines.len(),
{
    if lines.len() == 0 {
        (seq![], seq![])
    } else {
        pem_step(pem_scan(lines.drop_last()), lines.last())
    }
}

/// The PEM blocks of a text, in order.
pub open spec fn pem_chain_of(s: Seq<char>) -> Seq<Seq<char>> {
    pem_scan(lines_of(s)).0
}

/// Whether `c` is white space, as `char::is_whitespace` says.
pub fn is_whitespace(c: char) -> (r: bool)
    ensures
        r == is_ws(c),
{
    c == '\t' || c == '\n' || c == '\u{0B}' || c == '\u{0C}' || c == '\r' || c == ' '
        || c == '\u{85}' || c == '\u{A0}' || c == '\u{1680}' || ('\u{2000}' <= c && c
        <= '\u{200A}') || c == '\u{2028}' || c == '\u{2029}' || c == '\u{202F}' || c
        == '\u{205F}' || c == '\u{3000}'
}

proof fn lemma_trim_start_step(s: Seq<char>, a: int, b: int)
    requires
        0 <= a < b <= s.len(),
        is_ws(s[a]),
    ensures
        trim_start(s.subrange(a, b)) == trim_start(s.subrange(a + 1, b)),
{
    assert(s.subrange(a, b).drop_first() =~= s.subrange(a + 1, b));
}

proof fn lemma_trim_end_step(s: Seq<char>, a: int, b: int)
    requires
        0 <= a < b <= s.len(),
        is_ws(s[b - 1]),
    ensures
        trim_end(s.subrange(a, b)) == trim_end(s.subrange(a, b - 1)),
{
    assert(s.subrange(a, b).drop_last() =~= s.subrange(a, b - 1));
}

/// The bounds of `v[a..b]` with white space cut from both ends.
pub(crate) fn trim_bounds(v: &Vec<char>, a: usize, b: usize) -> (r: (usize, usize))
    requires
        a <= b <= v@.len(),
    ensures
        a <= r.0 <= r.1 <= b,
        v@.subrange(r.0 as int, r.1 as int) == trim(v@.subrange(a as int, b as int)),
{
    let mut lo = a;
    while lo < b && is_whitespace(v[lo])
        invariant
            a <= lo <= b <= v@.len(),
            trim_start(v@.subrange(lo as int, b as int)) == trim_start(
                v@.subrange(a as int, b as int),
            ),
        decreases b - lo,
    {
        proof {
            lemma_trim_start_step(v@, lo as int, b as int);
        }
        lo = lo + 1;
    }
    assert(trim_start(v@.subrange(lo as int, b as int)) == v@.subrange(lo as int, b as int));
    let mut hi = b;
    while hi > lo && is_whitespace(v[hi - 1])
        invariant
            a <= lo <= hi <= b <= v@.len(),
            trim_end(v@.subrange(lo as int, hi as int)) == trim(v@.subrange(a as int, b as int)),
        decreases hi - lo,
    {
        proof {
            lemma_trim_end_step(v@, lo as int, hi as int);
        }
        hi = hi - 1;
    }
    (lo, hi)
}

/// Whether `v[a..b]` begins with the characters of `p`.
fn starts_with_at(v: &Vec<char>, a: usize, b: usize, p: &str) -> (r: bool)
    requires
        a <= b <= v@.len(),
    ensures
        r == starts_with(v@.subrange(a as int, b as int), p@),
{
    let n = p.unicode_len();
    if n > b - a {
        return false;
    }
    let mut i: usize = 0;
    while i < n
        invariant
            n == p@.len(),
            a + n <= b <= v@.len(),
            i <= n,
            forall|k: int| 0 <= k < i ==> v@[a + k] == p@[k],
        decreases n - i,
    {
        if v[a + i] != p.get_char(i) {
            assert(v@.subrange(a as int, b as int).subrange(0, n as int)[i as int] != p@[i as int]);
            return false;
        }
        i = i + 1;
    }
    assert(v@.subrange(a as int, b as int).subrange(0, n as int) =~= p@);
    true
}

/// One more character of the scan: a newline ends the open line.
proof fn lemma_scan_lines_step(s: Seq<char>, i: int)
    requires
        0 <= i < s.len(),
    ensures
        scan_lines(s.subrange(0, i + 1)) == (if s[i] == '\n' {
            (scan_lines(s.subrange(0, i)).0.push(scan_lines(s.subrange(0, i)).1), Seq::<char>::empty())
        } else {
            (scan_lines(s.subrange(0, i)).0, scan_lines(s.subrange(0, i)).1.push(s[i]))
        }),
{
    assert(s.subrange(0, i + 1).drop_last() =~= s.subrange(0, i));
}

/// Adds the trimmed line `v[a..b]` to the block that is open, or opens one.
fn push_trimmed(v: &Vec<char>, a: usize, b: usize, cur: &mut Vec<char>, first: bool)
    requires
        a <= b <= v@.len(),
    ensures
        final(cur)@ == (if first {
            trim(v@.subrange(a as int, b as int))
        } else {
            old(cur)@ + seq!['\n'] + trim(v@.subrange(a as int, b as int))
        }),
{
    let (lo, hi) = trim_bounds(v, a, b);
    if first {
        cur.clear();
    } else {
        cur.push('\n');
    }
    let ghost base = cur@;
    let mut k = lo;
    while k < hi
        invariant
            lo <= k <= hi <= v@.len(),
            cur@ == base + v@.subrange(lo as int, k as int),
        decreases hi - k,
    {
        cur.push(v[k]);
        assert(v@.subrange(lo as int, k + 1) =~= v@.subrange(lo as int, k as int).push(v@[k as int]));
        k = k + 1;
    }
    assert(base + v@.subrange(lo as int, hi as int) =~= (if first {
        trim(v@.subrange(a as int, b as int))
    } else {
        old(cur)@ + seq!['\n'] + trim(v@.subrange(a as int, b as int))
    }));
}

/// One step of the PEM scan on the line `v[a..b]`.
fn pem_line(
    v: &Vec<char>,
    a: usize,
    b: usize,
    chain: &mut Vec<String>,
    cur: &mut Vec<char>,
    open: &mut bool,
    Ghost(st): Ghost<(Seq<Seq<char>>, Seq<Seq<char>>)>,
) -> (r: Ghost<(Seq<Seq<char>>, Seq<Seq<char>>)>)
    requires
        a <= b <= v@.len(),
        old(chain)@.map_values(|x: String| x@) == st.0,
        old(cur)@ == join_lines(st.1),
        *old(open) == (st.1.len() > 0),
    ensures
        r@ == pem_step(st, v@.subrange(a as int, b as int)),
        final(chain)@.map_values(|x: String| x@) == r@.0,
        final(cur)@ == join_lines(r@.1),
        *final(open) == (r@.1.len() > 0),
{
    let ghost line = v@.subrange(a as int, b as int);
    let ghost t = trim(line);
    if starts_with_at(v, a, b, "-----BEGIN ") {
        push_trimmed(v, a, b, cur, true);
        *open = true;
        Ghost((st.0, seq![t]))
    } else if starts_with_at(v, a, b, "-----END ") {
        let ghost lines = st.1.push(t);
        assert(lines.drop_last() =~= st.1);
        push_trimmed(v, a, b, cur, !*open);
        let block = string_of(cur);
        chain.push(block);
        cur.clear();
        *open = false;
        assert(chain@.map_values(|x: String| x@) =~= st.0.push(join_lines(lines)));
        assert(join_lines(Seq::<Seq<char>>::empty()) =~= cur@);
        Ghost((st.0.push(join_lines(lines)), Seq::<Seq<char>>::empty()))
    } else if *open {
        let ghost lines = st.1.push(t);
        assert(lines.drop_last() =~= st.1);
        push_trimmed(v, a, b, cur, false);
        Ghost((st.0, lines))
    } else {
        Ghost(st)
    }
}

/// The characters of `s`, in order.
pub fn chars_of(s: &str) -> (r: Vec<char>)
    ensures
        r@ == s@,
{
    broadcast use vstd::string::axiom_spec_iter, vstd::string::next_postcondition;
    let mut it = s.chars();
    let mut v: Vec<char> = Vec::new();
    loop
        invariant
            v@ + it.remaining() == s@,
        ensures
            v@ == s@,
        decreases s@.len() - v@.len(),
    {
        match it.next() {
            Some(c) => {
                assert(it.remaining().len() >= 0);
                v.push(c);
            },
            None => {
                assert(v@ =~= s@);
                break ;
            },
        }
    }
    v
}

/// Relies on `String: FromIterator<&char>`: the string of the given
/// characters, in order.
#[verifier::external_body]
pub(crate) fn string_of(v: &Vec<char>) -> (r: String)
    ensures
        r@ == v@,
{
    v.iter().collect()
}

/// Splits a text into its PEM blocks: a line that starts with a BEGIN marker
/// opens a block (dropping one left open), a line that starts with an END
/// marker closes it, and lines in between belong to the open block. Each
/// block is its lines, trimmed, joined by newlines; a block left open at the
/// end is dropped.
pub fn parse_pem_chain(pem_blob: &str) -> (r: Vec<String>)
    ensures
        r@.map_values(|x: String| x@) == pem_chain_of(pem_blob@),
{
    let v = chars_of(pem_blob);
    let n = v.len();
    let mut chain: Vec<String> = Vec::new();
    let mut cur: Vec<char> = Vec::new();
    let mut open = false;
    let ghost mut st: (Seq<Seq<char>>, Seq<Seq<char>>) = (seq![], seq![]);
    let mut start: usize = 0;
    let mut i: usize = 0;
    assert(chain@.map_values(|x: String| x@) =~= st.0);
    assert(v@.subrange(0, 0) =~= Seq::<char>::empty());
    while i < n
        invariant
            n == v@.len(),
            v@ == pem_blob@,
            start <= i <= n,
            scan_lines(v@.subrange(0, i as int)).1 == v@.subrange(start as int, i as int),
            st == pem_scan(scan_lines(v@.subrange(0, i as int)).0),
            chain@.map_values(|x: String| x@) == st.0,
            cur@ == join_lines(st.1),
            open == (st.1.len() > 0),
        decreases n - i,
    {
        proof {
            lemma_scan_lines_step(v@, i as int);
        }
        if v[i] == '\n' {
            let ghost done = scan_lines(v@.subrange(0, i as int)).0;
            let ghost line = v@.subrange(start as int, i as int);
            assert(done.push(line).drop_last() =~= done);
            let Ghost(next) = pem_line(&v, start, i, &mut chain, &mut cur, &mut open, Ghost(st));
            proof {
                st = next;
            }
            start = i + 1;
            assert(v@.subrange(start as int, i + 1) =~= Seq::<char>::empty());
        } else {
            assert(v@.subrange(start as int, i + 1) =~= v@.subrange(start as int, i as int).push(
                v@[i as int],
            ));
        }
        i = i + 1;
    }
    assert(v@.subrange(0, n as int) =~= v@);
    if start < n {
        let ghost done = scan_lines(v@).0;
        let ghost line = v@.subrange(start as int, n as int);
        assert(done.push(line).drop_last() =~= done);
        let Ghost(next) = pem_line(&v, start, n, &mut chain, &mut cur, &mut open, Ghost(st));
        proof {
            st = next;
        }
    }
    chain
}


/// The text made of the given lines, each followed by a newline.
pub open spec fn text_of_lines(ls: Seq<Seq<char>>) -> Seq<char>
    decreases ls.len(),
{
    if ls.len() == 0 {
        seq![]
    } else {
        text_of_lines(ls.drop_last()) + ls.last().push('\n')
    }
}

/// The lines of the blocks, one block after the other.
pub open spec fn lines_of_blocks(bs: Seq<Seq<Seq<char>>>) -> Seq<Seq<char>>
    decreases bs.len(),
{
    if bs.len() == 0 {
        seq![]
    } else {
        lines_of_blocks(bs.drop_last()) + bs.last()
    }
}

pub open spec fn has_no_newline(l: Seq<char>) -> bool {
    forall|i: int| 0 <= i < l.len() ==> l[i] != '\n'
}

/// A PEM block as lines: a BEGIN line, lines that start with neither
/// marker, and an END line.
pub open spec fn is_pem_block(b: Seq<Seq<char>>) -> bool {
    &&& b.len() >= 2
    &&& starts_with(b[0], begin_marker())
    &&& starts_with(b.last(), end_marker())
    &&& forall|k: int|
        0 < k < b.len() - 1 ==> !starts_with(#[trigger] b[k], begin_marker()) && !starts_with(
            b[k],
            end_marker(),
        )
    &&& forall|k: int| 0 <= k < b.len() ==> has_no_newline(#[trigger] b[k])
}

/// What the splitter gives for a block: its lines trimmed and joined by newlines.
pub open spec fn block_text(b: Seq<Seq<char>>) -> Seq<char> {
    join_lines(b.map_values(|l: Seq<char>| trim(l)))
}

proof fn lemma_scan_lines_append(t: Seq<char>, q: Seq<char>)
    requires
        has_no_newline(q),
    ensures
        scan_lines(t + q) == (scan_lines(t).0, scan_lines(t).1 + q),
    decreases q.len(),
{
    if q.len() == 0 {
        assert(t + q =~= t);
        assert(scan_lines(t).1 + q =~= scan_lines(t).1);
    } else {
        let q0 = q.drop_last();
        lemma_scan_lines_append(t, q0);
        assert((t + q).drop_last() =~= t + q0);
        assert((t + q).last() == q.last());
        assert((scan_lines(t).1 + q0).push(q.last()) =~= scan_lines(t).1 + q);
    }
}

proof fn lemma_scan_text_of_lines(ls: Seq<Seq<char>>)
    requires
        forall|k: int| 0 <= k < ls.len() ==> has_no_newline(#[trigger] ls[k]),
    ensures
        scan_lines(text_of_lines(ls)) == (ls, Seq::<char>::empty()),
    decreases ls.len(),
{
    if ls.len() > 0 {
        let prev = ls.drop_last();
        let l = ls.last();
        assert forall|k: int| 0 <= k < prev.len() implies has_no_newline(#[trigger] prev[k]) by {
            assert(prev[k] == ls[k]);
        }
        lemma_scan_text_of_lines(prev);
        let t = text_of_lines(prev);
        assert(has_no_newline(ls[ls.len() - 1]));
        lemma_scan_lines_append(t, l);
        let s = t + l.push('\n');
        assert(s.drop_last() =~= t + l);
        assert(s.last() == '\n');
        assert(Seq::<char>::empty() + l =~= l);
        assert(prev.push(l) =~= ls);
    } else {
        assert(text_of_lines(ls) =~= Seq::<char>::empty());
        assert(ls =~= Seq::<Seq<char>>::empty());
    }
}

proof fn lemma_markers_differ(l: Seq<char>)
    ensures
        !(starts_with(l, begin_marker()) && starts_with(l, end_marker())),
{
    reveal_strlit("-----BEGIN ");
    reveal_strlit("-----END ");
    if starts_with(l, begin_marker()) && starts_with(l, end_marker()) {
        assert(l.subrange(0, 11)[5] == 'B');
        assert(l.subrange(0, 9)[5] == 'E');
        assert(l[5] == 'B');
        assert(l[5] == 'E');
    }
}

/// After the first `j` lines of a block the scan holds them, trimmed, as the
/// open block.
proof fn lemma_pem_scan_block_prefix(
    pre: Seq<Seq<char>>,
    chain: Seq<Seq<char>>,
    b: Seq<Seq<char>>,
    j: int,
)
    requires
        pem_scan(pre) == (chain, Seq::<Seq<char>>::empty()),
        is_pem_block(b),
        1 <= j < b.len(),
    ensures
        pem_scan(pre + b.subrange(0, j)) == (chain, b.subrange(0, j).map_values(
            |l: Seq<char>| trim(l),
        )),
    decreases j,
{
    let ls = pre + b.subrange(0, j);
    assert(ls.drop_last() =~= pre + b.subrange(0, j - 1));
    assert(ls.last() == b[j - 1]);
    if j == 1 {
        assert(pre + b.subrange(0, 0) =~= pre);
        assert(b.subrange(0, 1).map_values(|l: Seq<char>| trim(l)) =~= seq![trim(b[0])]);
    } else {
        lemma_pem_scan_block_prefix(pre, chain, b, j - 1);
        assert(!starts_with(b[j - 1], begin_marker()));
        assert(b.subrange(0, j).map_values(|l: Seq<char>| trim(l)) =~= b.subrange(0, j - 1).map_values(
            |l: Seq<char>| trim(l),
        ).push(trim(b[j - 1])));
    }
}

/// A whole block after a closed one adds its text to the chain.
proof fn lemma_pem_scan_block(pre: Seq<Seq<char>>, chain: Seq<Seq<char>>, b: Seq<Seq<char>>)
    requires
        pem_scan(pre) == (chain, Seq::<Seq<char>>::empty()),
        is_pem_block(b),
    ensures
        pem_scan(pre + b) == (chain.push(block_text(b)), Seq::<Seq<char>>::empty()),
{
    let n = b.len() as int;
    lemma_pem_scan_block_prefix(pre, chain, b, n - 1);
    let ls = pre + b;
    assert(ls.drop_last() =~= pre + b.subrange(0, n - 1));
    assert(ls.last() == b.last());
    lemma_markers_differ(b.last());
    let cur = b.subrange(0, n - 1).map_values(|l: Seq<char>| trim(l));
    assert(cur.push(trim(b.last())) =~= b.map_values(|l: Seq<char>| trim(l)));
}

proof fn lemma_pem_scan_blocks(bs: Seq<Seq<Seq<char>>>)
    requires
        forall|i: int| 0 <= i < bs.len() ==> is_pem_block(#[trigger] bs[i]),
    ensures
        pem_scan(lines_of_blocks(bs)) == (bs.map_values(|b: Seq<Seq<char>>| block_text(b)), Seq::<
            Seq<char>,
        >::empty()),
    decreases bs.len(),
{
    if bs.len() == 0 {
        assert(bs.map_values(|b: Seq<Seq<char>>| block_text(b)) =~= Seq::<Seq<char>>::empty());
        assert(lines_of_blocks(bs) =~= Seq::<Seq<char>>::empty());
    } else {
        let prev = bs.drop_last();
        assert forall|i: int| 0 <= i < prev.len() implies is_pem_block(#[trigger] prev[i]) by {
            assert(prev[i] == bs[i]);
        }
        lemma_pem_scan_blocks(prev);
        assert(is_pem_block(bs[bs.len() - 1]));
        lemma_pem_scan_block(
            lines_of_blocks(prev),
            prev.map_values(|b: Seq<Seq<char>>| block_text(b)),
            bs.last(),
        );
        assert(prev.map_values(|b: Seq<Seq<char>>| block_text(b)).push(block_text(bs.last()))
            =~= bs.map_values(|b: Seq<Seq<char>>| block_text(b)));
    }
}

proof fn lemma_lines_of_blocks_no_newline(bs: Seq<Seq<Seq<char>>>)
    requires
        forall|i: int| 0 <= i < bs.len() ==> is_pem_block(#[trigger] bs[i]),
    ensures
        forall|k: int|
            0 <= k < lines_of_blocks(bs).len() ==> has_no_newline(#[trigger] lines_of_blocks(bs)[k]),
    decreases bs.len(),
{
    if bs.len() > 0 {
        let prev = bs.drop_last();
        assert forall|i: int| 0 <= i < prev.len() implies is_pem_block(#[trigger] prev[i]) by {
            assert(prev[i] == bs[i]);
        }
        lemma_lines_of_blocks_no_newline(prev);
        let a = lines_of_blocks(prev);
        let b = bs.last();
        assert(is_pem_block(bs[bs.len() - 1]));
        assert forall|k: int| 0 <= k < lines_of_blocks(bs).len() implies has_no_newline(
            #[trigger] lines_of_blocks(bs)[k],
        ) by {
            if k < a.len() {
                assert(lines_of_blocks(bs)[k] == a[k]);
            } else {
                assert(lines_of_blocks(bs)[k] == b[k - a.len()]);
            }
        }
    }
}

/// Well-formed PEM blocks written one after the other, each line ended by a
/// newline, split back into exactly as many blocks, each the block's lines
/// trimmed and joined by newlines, in order.
pub proof fn lemma_pem_round_trip(blocks: Seq<Seq<Seq<char>>>)
    requires
        blocks.len() > 0,
        forall|i: int| 0 <= i < blocks.len() ==> is_pem_block(#[trigger] blocks[i]),
    ensures
        pem_chain_of(text_of_lines(lines_of_blocks(blocks))) == blocks.map_values(
            |b: Seq<Seq<char>>| block_text(b),
        ),
        pem_chain_of(text_of_lines(lines_of_blocks(blocks))).len() == blocks.len(),
{
    lemma_lines_of_blocks_no_newline(blocks);
    lemma_scan_text_of_lines(lines_of_blocks(blocks));
    lemma_pem_scan_blocks(blocks);
}

} // verus!
