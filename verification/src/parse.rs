//! Line Parser: splits one command line into pipeline segments, extracts the
//! redirection targets, and tokenizes each segment on runs of whitespace.
//!
//! The whole parse is specified by `parsed_of`, a function on the byte
//! sequence of the line; `parse_line` is proved to return exactly that.

use vstd::prelude::*;

verus! {

/// The pipeline separator `|`.
pub const PIPE_BYTE: u8 = 124;
/// The input-redirection marker `<`.
pub const LT_BYTE: u8 = 60;
/// The output-redirection marker `>`.
pub const GT_BYTE: u8 = 62;

/// Why a command line is rejected or a pipeline cannot be set up.
#[derive(Clone, Copy, Debug, PartialEq, Eq, Structural)]
pub enum ShellError {
    /// A redirection marker whose file name is empty.
    MalformedRedirection,
    /// An inter-process channel could not be created.
    PipeCreationFailed,
    /// A child process could not be started.
    SpawnFailed,
}

/// The separator class a split looks for.
#[derive(Clone, Copy, Debug, PartialEq, Eq, Structural)]
pub enum SepKind {
    /// The pipeline separator `|`.
    Pipe,
    /// Any ASCII whitespace byte.
    Blank,
}

/// ASCII whitespace. The parser works on bytes, as the kernel takes
/// command names and file names; a byte outside ASCII is ordinary text,
/// never a separator.
pub open spec fn is_blank(b: u8) -> bool {
    b == 32 || b == 9 || b == 10 || b == 11 || b == 12 || b == 13
}

pub open spec fn sep_matches(k: SepKind, b: u8) -> bool {
    match k {
        SepKind::Pipe => b == PIPE_BYTE,
        SepKind::Blank => is_blank(b),
    }
}

pub open spec fn contains_byte(m: u8, s: Seq<u8>) -> bool {
    exists|i: int| 0 <= i < s.len() && s[i] == m
}

/// Index of the first occurrence of `m` in `s`, or `s.len()` if there is none.
pub open spec fn first_at(m: u8, s: Seq<u8>) -> int
    decreases s.len(),
{
    if s.len() == 0 {
        0
    } else if s[0] == m {
        0
    } else {
        1 + first_at(m, s.skip(1))
    }
}

/// How many bytes of `s` the separator class matches.
pub open spec fn sep_count(k: SepKind, s: Seq<u8>) -> nat
    decreases s.len(),
{
    if s.len() == 0 {
        0
    } else {
        sep_count(k, s.drop_last()) + (if sep_matches(k, s.last()) { 1nat } else { 0nat })
    }
}

/// The parts of `s` between separators: one more part than there are
/// separators, in order; a part may be empty.
pub open spec fn split_at_seps(k: SepKind, s: Seq<u8>) -> Seq<Seq<u8>>
    decreases s.len(),
{
    if s.len() == 0 {
        seq![Seq::<u8>::empty()]
    } else if sep_matches(k, s.last()) {
        split_at_seps(k, s.drop_last()).push(Seq::<u8>::empty())
    } else {
        let r = split_at_seps(k, s.drop_last());
        r.update(r.len() - 1, r.last().push(s.last()))
    }
}

/// `s` without its leading whitespace.
pub open spec fn trim_front(s: Seq<u8>) -> Seq<u8>
    decreases s.len(),
{
    if s.len() > 0 && is_blank(s[0]) {
        trim_front(s.skip(1))
    } else {
        s
    }
}

/// `s` without its trailing whitespace.
pub open spec fn trim_back(s: Seq<u8>) -> Seq<u8>
    decreases s.len(),
{
    if s.len() > 0 && is_blank(s.last()) {
        trim_back(s.drop_last())
    } else {
        s
    }
}

/// `s` without leading and trailing whitespace.
pub open spec fn spec_trim(s: Seq<u8>) -> Seq<u8> {
    trim_back(trim_front(s))
}

/// The nonempty parts, in order.
pub open spec fn nonempty_parts(ps: Seq<Seq<u8>>) -> Seq<Seq<u8>>
    decreases ps.len(),
{
    if ps.len() == 0 {
        Seq::empty()
    } else if ps.last().len() > 0 {
        nonempty_parts(ps.drop_last()).push(ps.last())
    } else {
        nonempty_parts(ps.drop_last())
    }
}

/// The whitespace-delimited words of a segment.
pub open spec fn blank_tokens(s: Seq<u8>) -> Seq<Seq<u8>> {
    nonempty_parts(split_at_seps(SepKind::Blank, s))
}

/// Splitting a segment at its first redirection marker `m`: the command part
/// (text before the first marker, trimmed) and the file name (text between
/// the first and second markers, or to the end, trimmed). Text after a
/// second marker is dropped. Without a marker the segment is unchanged.
pub open spec fn strip_marker(m: u8, s: Seq<u8>) -> (Seq<u8>, Option<Seq<u8>>) {
    if !contains_byte(m, s) {
        (s, None)
    } else {
        let p = first_at(m, s);
        let rest = s.skip(p + 1);
        let raw_name = if contains_byte(m, rest) {
            rest.take(first_at(m, rest))
        } else {
            rest
        };
        (spec_trim(s.take(p)), Some(spec_trim(raw_name)))
    }
}

pub open spec fn views(ps: Seq<Vec<u8>>) -> Seq<Seq<u8>> {
    ps.map_values(|p: Vec<u8>| p@)
}

pub open spec fn views2(qs: Seq<Vec<Vec<u8>>>) -> Seq<Seq<Seq<u8>>> {
    qs.map_values(|q: Vec<Vec<u8>>| views(q@))
}

pub open spec fn opt_bytes(o: Option<Vec<u8>>) -> Option<Seq<u8>> {
    match o {
        Some(v) => Some(v@),
        None => None,
    }
}

/// What a parse yields: the tokens of each segment, the input-file name and
/// the output-file name.
pub type ParsedParts = (Seq<Seq<Seq<u8>>>, Option<Seq<u8>>, Option<Seq<u8>>);

/// The meaning of one command line: split at `|`, trim each segment, take
/// the output redirection from the last segment, then the input redirection
/// from the first, and tokenize what remains. A redirection whose file name
/// is empty is malformed.
pub open spec fn parsed_of(line: Seq<u8>) -> Result<ParsedParts, ShellError> {
    let raw = split_at_seps(SepKind::Pipe, line).map_values(|p: Seq<u8>| spec_trim(p));
    let lastn = raw.len() - 1;
    let (lseg, outname) = strip_marker(GT_BYTE, raw[lastn]);
    let witho = raw.update(lastn, lseg);
    let (fseg, inname) = strip_marker(LT_BYTE, witho[0]);
    let segs = witho.update(0, fseg);
    if (outname matches Some(n) && n.len() == 0) || (inname matches Some(n) && n.len() == 0) {
        Err(ShellError::MalformedRedirection)
    } else {
        Ok((segs.map_values(|sg: Seq<u8>| blank_tokens(sg)), inname, outname))
    }
}

/// One parsed command line: per segment its word tokens (a segment that had
/// no words keeps its place with an empty token list), and the redirection
/// targets.
pub struct Pipeline {
    pub segments: Vec<Vec<Vec<u8>>>,
    pub input_name: Option<Vec<u8>>,
    pub output_name: Option<Vec<u8>>,
}

impl Pipeline {
    pub open spec fn model(self) -> ParsedParts {
        (views2(self.segments@), opt_bytes(self.input_name), opt_bytes(self.output_name))
    }
}

pub proof fn lemma_views_push(ps: Seq<Vec<u8>>, v: Vec<u8>)
    ensures
        views(ps.push(v)) == views(ps).push(v@),
{
    assert(views(ps.push(v)) =~= views(ps).push(v@));
}

pub proof fn lemma_views2_push(qs: Seq<Vec<Vec<u8>>>, q: Vec<Vec<u8>>)
    ensures
        views2(qs.push(q)) == views2(qs).push(views(q@)),
{
    assert(views2(qs.push(q)) =~= views2(qs).push(views(q@)));
}

pub proof fn lemma_first_at(m: u8, s: Seq<u8>)
    ensures
        0 <= first_at(m, s) <= s.len(),
        contains_byte(m, s) <==> first_at(m, s) < s.len(),
        contains_byte(m, s) ==> s[first_at(m, s)] == m,
        forall|j: int| 0 <= j < first_at(m, s) ==> s[j] != m,
    decreases s.len(),
{
    if s.len() > 0 && s[0] != m {
        lemma_first_at(m, s.skip(1));
        assert forall|j: int| 0 <= j < s.len() && s[j] == m implies contains_byte(m, s.skip(1)) by {
            assert(s.skip(1)[j - 1] == s[j]);
        }
        if contains_byte(m, s.skip(1)) {
            let p = first_at(m, s.skip(1));
            assert(s[1 + p] == s.skip(1)[p]);
        }
        assert forall|j: int| 0 <= j < first_at(m, s) implies s[j] != m by {
            if j > 0 {
                assert(s[j] == s.skip(1)[j - 1]);
            }
        }
    }
}

/// One more part than separators.
pub proof fn lemma_split_len(k: SepKind, s: Seq<u8>)
    ensures
        split_at_seps(k, s).len() == sep_count(k, s) + 1,
    decreases s.len(),
{
    if s.len() > 0 {
        lemma_split_len(k, s.drop_last());
    }
}

pub proof fn lemma_trim_front_shape(s: Seq<u8>)
    ensures
        trim_front(s).len() <= s.len(),
        trim_front(s) == s.skip(s.len() - trim_front(s).len()),
        trim_front(s).len() > 0 ==> !is_blank(trim_front(s)[0]),
    decreases s.len(),
{
    if s.len() > 0 && is_blank(s[0]) {
        lemma_trim_front_shape(s.skip(1));
        assert(s.skip(1).skip(s.skip(1).len() - trim_front(s.skip(1)).len())
            =~= s.skip(s.len() - trim_front(s).len()));
    } else {
        assert(s.skip(0) =~= s);
    }
}

pub proof fn lemma_trim_back_shape(s: Seq<u8>)
    ensures
        trim_back(s).len() <= s.len(),
        trim_back(s) == s.take(trim_back(s).len() as int),
        trim_back(s).len() > 0 ==> !is_blank(trim_back(s).last()),
    decreases s.len(),
{
    if s.len() > 0 && is_blank(s.last()) {
        lemma_trim_back_shape(s.drop_last());
        assert(s.drop_last().take(trim_back(s).len() as int)
            =~= s.take(trim_back(s).len() as int));
    } else {
        assert(s.take(s.len() as int) =~= s);
    }
}

pub fn sep_hit(k: SepKind, b: u8) -> (r: bool)
    ensures
        r == sep_matches(k, b),
{
    match k {
        SepKind::Pipe => b == PIPE_BYTE,
        SepKind::Blank => b == 32 || b == 9 || b == 10 || b == 11 || b == 12 || b == 13,
    }
}

/// A fresh copy of `v[a..b]`.
pub fn subvec(v: &Vec<u8>, a: usize, b: usize) -> (r: Vec<u8>)
    requires
        a <= b <= v@.len(),
    ensures
        r@ == v@.subrange(a as int, b as int),
{
    let mut r: Vec<u8> = Vec::new();
    let mut i: usize = a;
    while i < b
        invariant
            a <= i <= b <= v@.len(),
            r@ == v@.subrange(a as int, i as int),
        decreases b - i,
    {
        r.push(v[i]);
        i = i + 1;
        proof {
            assert(v@.subrange(a as int, i as int)
                =~= v@.subrange(a as int, i - 1).push(v@[i - 1]));
        }
    }
    r
}

/// The index of the first `m` in `v`, or `v.len()` if there is none.
pub fn find_byte(m: u8, v: &Vec<u8>) -> (p: usize)
    ensures
        p as int == first_at(m, v@),
        p <= v@.len(),
{
    proof {
        lemma_first_at(m, v@);
    }
    let mut i: usize = 0;
    while i < v.len()
        invariant
            i <= v@.len(),
            forall|j: int| 0 <= j < i ==> v@[j] != m,
        decreases v@.len() - i,
    {
        if v[i] == m {
            proof {
                lemma_first_at(m, v@);
                assert(contains_byte(m, v@));
            }
            return i;
        }
        i = i + 1;
    }
    proof {
        lemma_first_at(m, v@);
        if contains_byte(m, v@) {
            assert(v@[first_at(m, v@)] == m);
        }
    }
    i
}

/// `v` without leading and trailing whitespace.
pub fn trim_bytes(v: &Vec<u8>) -> (r: Vec<u8>)
    ensures
        r@ == spec_trim(v@),
{
    let mut i: usize = 0;
    proof {
        assert(v@.skip(0) =~= v@);
    }
    while i < v.len() && sep_hit(SepKind::Blank, v[i])
        invariant
            i <= v@.len(),
            trim_front(v@) == trim_front(v@.skip(i as int)),
        decreases v@.len() - i,
    {
        proof {
            assert(v@.skip(i as int).skip(1) =~= v@.skip(i + 1));
        }
        i = i + 1;
    }
    proof {
        assert(v@.skip(i as int).len() == v@.len() - i);
        if i < v@.len() {
            assert(v@.skip(i as int)[0] == v@[i as int]);
        }
        assert(trim_front(v@) == v@.skip(i as int));
    }
    let mut j: usize = v.len();
    while j > i && sep_hit(SepKind::Blank, v[j - 1])
        invariant
            i <= j <= v@.len(),
            trim_back(v@.skip(i as int)) == trim_back(v@.subrange(i as int, j as int)),
        decreases j,
    {
        proof {
            assert(v@.skip(i as int) =~= v@.subrange(i as int, v@.len() as int));
            assert(v@.subrange(i as int, j as int).drop_last()
                =~= v@.subrange(i as int, j - 1));
            assert(v@.subrange(i as int, j as int).last() == v@[j - 1]);
        }
        j = j - 1;
    }
    proof {
        assert(v@.skip(i as int) =~= v@.subrange(i as int, v@.len() as int));
        let piece = v@.subrange(i as int, j as int);
        if j > i {
            assert(piece.last() == v@[j - 1]);
        }
        assert(trim_back(piece) == piece);
    }
    subvec(v, i, j)
}

/// Splits `v` at every separator of class `k`.
pub fn split_bytes(k: SepKind, v: &Vec<u8>) -> (parts: Vec<Vec<u8>>)
    ensures
        views(parts@) == split_at_seps(k, v@),
{
    let mut parts: Vec<Vec<u8>> = Vec::new();
    let mut cur: Vec<u8> = Vec::new();
    let mut i: usize = 0;
    while i < v.len()
        invariant
            i <= v@.len(),
            split_at_seps(k, v@.take(i as int)) == views(parts@).push(cur@),
        decreases v@.len() - i,
    {
        let b = v[i];
        proof {
            assert(v@.take(i + 1).drop_last() =~= v@.take(i as int));
            assert(v@.take(i + 1).last() == v@[i as int]);
        }
        if sep_hit(k, b) {
            proof {
                lemma_views_push(parts@, cur);
            }
            parts.push(cur);
            cur = Vec::new();
        } else {
            proof {
                let r = split_at_seps(k, v@.take(i as int));
                assert(r.last() == cur@);
                assert(r.update(r.len() - 1, cur@.push(b))
                    =~= views(parts@).push(cur@.push(b)));
            }
            cur.push(b);
        }
        i = i + 1;
    }
    proof {
        assert(v@.take(v@.len() as int) =~= v@);
        lemma_views_push(parts@, cur);
    }
    parts.push(cur);
    parts
}

/// The whitespace-delimited words of `seg`.
pub fn tokenize(seg: &Vec<u8>) -> (toks: Vec<Vec<u8>>)
    ensures
        views(toks@) == blank_tokens(seg@),
{
    let parts = split_bytes(SepKind::Blank, seg);
    let ghost all = views(parts@);
    let mut toks: Vec<Vec<u8>> = Vec::new();
    let mut i: usize = 0;
    while i < parts.len()
        invariant
            i <= parts@.len(),
            all == views(parts@),
            views(toks@) == nonempty_parts(all.take(i as int)),
        decreases parts@.len() - i,
    {
        proof {
            assert(all.take(i + 1).drop_last() =~= all.take(i as int));
            assert(all.take(i + 1).last() == parts@[i as int]@);
        }
        if parts[i].len() > 0 {
            proof {
                lemma_views_push(toks@, parts@[i as int]);
            }
            let piece = subvec(&parts[i], 0, parts[i].len());
            proof {
                assert(piece@ =~= parts@[i as int]@);
            }
            toks.push(piece);
        }
        i = i + 1;
    }
    proof {
        assert(all.take(all.len() as int) =~= all);
    }
    toks
}

/// Splits `seg` at its first `m`, exactly as `strip_marker` states.
pub fn strip_redirect(m: u8, seg: &Vec<u8>) -> (r: (Vec<u8>, Option<Vec<u8>>))
    ensures
        (r.0@, opt_bytes(r.1)) == strip_marker(m, seg@),
{
    let p = find_byte(m, seg);
    proof {
        lemma_first_at(m, seg@);
    }
    if p == seg.len() {
        let whole = subvec(seg, 0, seg.len());
        proof {
            assert(whole@ =~= seg@);
        }
        (whole, None)
    } else {
        let cmd_raw = subvec(seg, 0, p);
        let rest = subvec(seg, p + 1, seg.len());
        proof {
            assert(rest@ =~= seg@.skip(p + 1));
            lemma_first_at(m, rest@);
        }
        let q = find_byte(m, &rest);
        let name_raw = if q == rest.len() {
            subvec(&rest, 0, rest.len())
        } else {
            subvec(&rest, 0, q)
        };
        proof {
            assert(cmd_raw@ =~= seg@.take(p as int));
            if q == rest.len() as usize {
                assert(name_raw@ =~= rest@);
            } else {
                assert(name_raw@ =~= rest@.take(q as int));
            }
        }
        let cmd = trim_bytes(&cmd_raw);
        let name = trim_bytes(&name_raw);
        (cmd, Some(name))
    }
}

/// Parses one command line, exactly as `parsed_of` states.
pub fn parse_line(line: &Vec<u8>) -> (r: Result<Pipeline, ShellError>)
    ensures
        match r {
            Ok(p) => parsed_of(line@) == Ok::<ParsedParts, ShellError>(p.model()),
            Err(e) => parsed_of(line@) == Err::<ParsedParts, ShellError>(e),
        },
{
    let raw = split_bytes(SepKind::Pipe, line);
    let ghost rawspec = split_at_seps(SepKind::Pipe, line@).map_values(|p: Seq<u8>| spec_trim(p));
    let mut segs: Vec<Vec<u8>> = Vec::new();
    let mut i: usize = 0;
    while i < raw.len()
        invariant
            i <= raw@.len(),
            views(raw@) == split_at_seps(SepKind::Pipe, line@),
            rawspec == split_at_seps(SepKind::Pipe, line@).map_values(|p: Seq<u8>| spec_trim(p)),
            views(segs@) == rawspec.take(i as int),
        decreases raw@.len() - i,
    {
        let t = trim_bytes(&raw[i]);
        proof {
            lemma_views_push(segs@, t);
            assert(rawspec.take(i + 1) =~= rawspec.take(i as int).push(rawspec[i as int]));
            assert(views(raw@)[i as int] == raw@[i as int]@);
        }
        segs.push(t);
        i = i + 1;
    }
    proof {
        assert(rawspec.take(rawspec.len() as int) =~= rawspec);
        lemma_split_len(SepKind::Pipe, line@);
    }
    let lastn = segs.len() - 1;
    let (lseg, outname) = strip_redirect(GT_BYTE, &segs[lastn]);
    proof {
        assert(views(segs@.update(lastn as int, lseg)) =~= views(segs@).update(lastn as int, lseg@));
    }
    segs.set(lastn, lseg);
    let (fseg, inname) = strip_redirect(LT_BYTE, &segs[0]);
    proof {
        assert(views(segs@.update(0, fseg)) =~= views(segs@).update(0, fseg@));
    }
    segs.set(0, fseg);
    let bad_out: bool = match &outname {
        Some(n) => n.len() == 0,
        None => false,
    };
    let bad_in: bool = match &inname {
        Some(n) => n.len() == 0,
        None => false,
    };
    if bad_out || bad_in {
        return Err(ShellError::MalformedRedirection);
    }
    let ghost segspec = views(segs@);
    let mut toks: Vec<Vec<Vec<u8>>> = Vec::new();
    let mut j: usize = 0;
    while j < segs.len()
        invariant
            j <= segs@.len(),
            segspec == views(segs@),
            views2(toks@) == segspec.map_values(|sg: Seq<u8>| blank_tokens(sg)).take(j as int),
        decreases segs@.len() - j,
    {
        let tk = tokenize(&segs[j]);
        proof {
            lemma_views2_push(toks@, tk);
            let mapped = segspec.map_values(|sg: Seq<u8>| blank_tokens(sg));
            assert(mapped.take(j + 1) =~= mapped.take(j as int).push(mapped[j as int]));
            assert(views(segs@)[j as int] == segs@[j as int]@);
        }
        toks.push(tk);
        j = j + 1;
    }
    proof {
        let mapped = segspec.map_values(|sg: Seq<u8>| blank_tokens(sg));
        assert(mapped.take(mapped.len() as int) =~= mapped);
    }
    Ok(Pipeline { segments: toks, input_name: inname, output_name: outname })
}

/// A line with k pipe separators parses to exactly k + 1 segments; the
/// pipeline built from it then takes one channel less than that.
pub proof fn lemma_segment_count(line: Seq<u8>)
    requires
        parsed_of(line) is Ok,
    ensures
        (parsed_of(line)->Ok_0).0.len() == sep_count(SepKind::Pipe, line) + 1,
{
    lemma_split_len(SepKind::Pipe, line);
}

/// Redirection stripping is idempotent: the command part that remains holds
/// no marker, so stripping it again changes nothing and names no file.
pub proof fn lemma_strip_idempotent(m: u8, s: Seq<u8>)
    ensures
        !contains_byte(m, strip_marker(m, s).0),
        strip_marker(m, strip_marker(m, s).0) == (strip_marker(m, s).0, None::<Seq<u8>>),
{
    if contains_byte(m, s) {
        lemma_first_at(m, s);
        let p = first_at(m, s);
        lemma_trim_keeps_bytes(m, s.take(p));
        if contains_byte(m, s.take(p)) {
            let w = choose|i: int| 0 <= i < s.take(p).len() && s.take(p)[i] == m;
            assert(s[w] == m);
            assert(false);
        }
    }
}

/// Every byte of the trimmed text stands in the original.
pub proof fn lemma_trim_keeps_bytes(m: u8, s: Seq<u8>)
    ensures
        contains_byte(m, spec_trim(s)) ==> contains_byte(m, s),
{
    lemma_trim_front_shape(s);
    lemma_trim_back_shape(trim_front(s));
    if contains_byte(m, spec_trim(s)) {
        let i = choose|i: int| 0 <= i < spec_trim(s).len() && spec_trim(s)[i] == m;
        let off = s.len() - trim_front(s).len();
        assert(spec_trim(s)[i] == trim_front(s)[i]);
        assert(trim_front(s)[i] == s[i + off]);
    }
}

}
