//! Disc file system types: the file system table (FST) is a packed array of
//! 12-byte nodes followed by a Shift-JIS string table.

use vstd::prelude::*;

use crate::{Error, Result};
use crate::strings::{
    decode_shift_jis, fold_eq_range, fold_eq_seq, msg_with_number, sjis_chars, sjis_error,
};
use crate::util::{be24, be32, copy_range, find_nul, read_u24_be, read_u32_be, read_u8};

verus! {

/// File system node kind.
#[derive(Clone, Copy, Debug, PartialEq, Eq, Structural)]
pub enum NodeKind {
    /// Node is a file.
    File,
    /// Node is a directory.
    Directory,
    /// Invalid node kind. (Should not normally occur)
    Invalid,
}

/// An individual file system node: a kind byte, a 24-bit big-endian name
/// offset into the string table, and two 32-bit big-endian words whose
/// meaning depends on the kind.
#[derive(Clone, Copy, Debug, PartialEq, Eq, Structural)]
pub struct Node {
    /// 0 for a file, 1 for a directory.
    pub kind: u8,
    /// Offset in the string table to the node's name (24 bits).
    pub name_offset: u32,
    /// For files, the partition offset of the file data (Wii: stored shifted
    /// right by 2); for directories, the parent node index.
    pub offset: u32,
    /// For files, the byte size of the file; for directories, the end index
    /// of the directory's subtree.
    pub length: u32,
}

/// The node encoded at byte offset `off`.
pub open spec fn spec_node(s: Seq<u8>, off: int) -> Node {
    Node {
        kind: s[off],
        name_offset: be24(s, off + 1) as u32,
        offset: be32(s, off + 4) as u32,
        length: be32(s, off + 8) as u32,
    }
}

impl Node {
    /// The node kind denoted by the kind byte.
    pub open spec fn spec_kind(&self) -> NodeKind {
        if self.kind == 0 {
            NodeKind::File
        } else if self.kind == 1 {
            NodeKind::Directory
        } else {
            NodeKind::Invalid
        }
    }

    /// File system node kind.
    pub fn kind(&self) -> (r: NodeKind)
        ensures
            r == self.spec_kind(),
    {
        if self.kind == 0 {
            NodeKind::File
        } else if self.kind == 1 {
            NodeKind::Directory
        } else {
            NodeKind::Invalid
        }
    }

    /// Whether the node is a file.
    pub fn is_file(&self) -> (r: bool)
        ensures
            r == (self.kind == 0),
    {
        self.kind == 0
    }

    /// Whether the node is a directory.
    pub fn is_dir(&self) -> (r: bool)
        ensures
            r == (self.kind == 1),
    {
        self.kind == 1
    }

    /// Offset in the string table to the filename.
    pub fn name_offset(&self) -> (r: u32)
        ensures
            r == self.name_offset,
    {
        self.name_offset
    }

    /// The stored offset, re-multiplied by 4 for Wii file nodes.
    pub open spec fn spec_offset(&self, is_wii: bool) -> int {
        if is_wii && self.kind == 0 {
            self.offset * 4
        } else {
            self.offset as int
        }
    }

    /// For files, this is the partition offset of the file data. (Wii: >> 2)
    ///
    /// For directories, this is the parent node index in the FST.
    pub fn offset(&self, is_wii: bool) -> (r: u64)
        ensures
            r == self.spec_offset(is_wii),
    {
        if is_wii && self.kind == 0 {
            (self.offset as u64) * 4
        } else {
            self.offset as u64
        }
    }

    /// For files, this is the byte size of the file.
    ///
    /// For directories, this is the child end index in the FST.
    pub fn length(&self) -> (r: u64)
        ensures
            r == self.length as u64,
    {
        self.length as u64
    }
}

/// The position of the first zero byte at or after `i`, or the sequence's
/// length when none follows.
pub open spec fn nul_pos(st: Seq<u8>, i: int) -> int
    decreases st.len() - i,
{
    if i < 0 || i >= st.len() {
        st.len() as int
    } else if st[i] == 0 {
        i
    } else {
        nul_pos(st, i + 1)
    }
}

/// The name bytes at `off`: everything up to the terminating NUL.
pub open spec fn name_bytes(st: Seq<u8>, off: int) -> Seq<u8> {
    st.subrange(off, nul_pos(st, off))
}

/// A name offset is valid when it lies in the string table, a NUL terminator
/// follows, and the bytes up to it decode as Shift-JIS.
pub open spec fn name_ok(st: Seq<u8>, off: int) -> bool {
    &&& 0 <= off <= st.len()
    &&& nul_pos(st, off) < st.len()
    &&& !sjis_error(name_bytes(st, off))
}

/// The decoded name at `off`.
pub open spec fn spec_name(st: Seq<u8>, off: int) -> Seq<char> {
    sjis_chars(name_bytes(st, off))
}

proof fn lemma_nul_pos(st: Seq<u8>, off: int, i: int)
    requires
        0 <= off <= i <= st.len(),
        forall|j: int| off <= j < i ==> st[j] != 0,
        i == st.len() || st[i] == 0,
    ensures
        nul_pos(st, off) == i || (i == st.len() && nul_pos(st, off) == st.len()),
    decreases i - off,
{
    if off < i {
        lemma_nul_pos(st, off + 1, i);
    }
}

/// A view into the file system table (FST).
pub struct Fst {
    /// The nodes in the FST.
    pub nodes: Vec<Node>,
    /// The string table containing all file and directory names.
    pub string_table: Vec<u8>,
}

/// What a well-formed parse of `buf` looks like: the root's length field is
/// the node count, the node region is `count * 12` bytes, and the remainder
/// is the string table.
pub open spec fn parses_to(buf: Seq<u8>, f: Fst) -> bool {
    &&& buf.len() >= 12
    &&& f.nodes@.len() == spec_node(buf, 0).length
    &&& forall|i: int| 0 <= i < f.nodes@.len() ==> f.nodes@[i] == spec_node(buf, i * 12)
    &&& f.string_table@ == buf.subrange(f.nodes@.len() as int * 12, buf.len() as int)
}

impl Fst {
    /// Create a new FST view from a buffer.
    ///
    /// Fails exactly when the buffer cannot hold the root node, or when the
    /// node region given by the root's length leaves no string table behind.
    pub fn new(buf: &[u8]) -> (r: Result<Fst>)
        ensures
            r is Ok <==> buf@.len() >= 12 && spec_node(buf@, 0).length * 12 < buf@.len(),
            r is Ok ==> parses_to(buf@, r->Ok_0),
    {
        let n = buf.len();
        if n < 12 {
            return Err(Error::DiscFormat("FST root node not found".to_owned()));
        }
        let root = parse_node(buf, 0);
        let count = root.length;
        let string_base: u64 = (count as u64) * 12;
        if string_base >= n as u64 {
            return Err(Error::DiscFormat("FST string table out of bounds".to_owned()));
        }
        let count_us = count as usize;
        let mut nodes: Vec<Node> = Vec::new();
        let mut i: usize = 0;
        while i < count_us
            invariant
                i <= count_us,
                count_us * 12 < n == buf@.len(),
                nodes@.len() == i,
                forall|j: int| 0 <= j < i ==> nodes@[j] == spec_node(buf@, j * 12),
            decreases count_us - i,
        {
            let node = parse_node(buf, i * 12);
            nodes.push(node);
            i = i + 1;
        }
        let string_table = copy_range(buf, count_us * 12, n - count_us * 12);
        Ok(Fst { nodes, string_table })
    }

    /// Iterate over the nodes in the FST, starting behind the root node.
    pub fn iter(&self) -> (r: FstIter)
        ensures
            r.idx == 1,
    {
        FstIter { idx: 1 }
    }

    /// Get the name of a node: the string table bytes from the node's name
    /// offset up to the next NUL, decoded as Shift-JIS. Fails exactly when
    /// the offset is out of bounds, no NUL follows, or decoding reports a
    /// malformed sequence; a returned name never contains a NUL character.
    pub fn get_name(&self, node: &Node) -> (r: Result<String>)
        ensures
            r is Ok <==> name_ok(self.string_table@, node.name_offset as int),
            r is Ok ==> r->Ok_0@ == spec_name(self.string_table@, node.name_offset as int),
            r is Ok ==> forall|j: int| 0 <= j < r->Ok_0@.len() ==> r->Ok_0@[j] as u32 != 0,
    {
        let st_len = self.string_table.len();
        let off = node.name_offset as usize;
        if off > st_len {
            return Err(Error::DiscFormat(msg_with_number(
                "FST: name offset ",
                node.name_offset as u64,
                " out of bounds",
            )));
        }
        match find_nul(self.string_table.as_slice(), off) {
            None => {
                proof {
                    lemma_nul_pos(self.string_table@, off as int, st_len as int);
                }
                Err(Error::DiscFormat(msg_with_number(
                    "FST: name at offset ",
                    node.name_offset as u64,
                    " not null-terminated",
                )))
            },
            Some(nul) => {
                proof {
                    lemma_nul_pos(self.string_table@, off as int, nul as int);
                }
                let bytes = copy_range(self.string_table.as_slice(), off, nul - off);
                let (decoded, had_errors) = decode_shift_jis(bytes.as_slice());
                if had_errors {
                    Err(Error::DiscFormat(msg_with_number(
                        "FST: failed to decode name at offset ",
                        node.name_offset as u64,
                        "",
                    )))
                } else {
                    proof {
                        assert(bytes@ =~= name_bytes(self.string_table@, node.name_offset as int));
                        assert(forall|i: int| 0 <= i < bytes@.len() ==> bytes@[i] != 0);
                    }
                    Ok(decoded)
                }
            },
        }
    }
}

/// The end of the path segment starting at `sp`: the position of the next
/// separator before `hi`, or `hi` itself.
pub open spec fn seg_end(p: Seq<char>, sp: int, hi: int) -> int
    decreases hi - sp,
{
    if sp < 0 || sp >= hi {
        sp
    } else if p[sp] == '/' {
        sp
    } else {
        seg_end(p, sp + 1, hi)
    }
}

proof fn lemma_seg_end(p: Seq<char>, sp: int, hi: int)
    requires
        0 <= sp <= hi <= p.len(),
    ensures
        sp <= seg_end(p, sp, hi) <= hi,
        seg_end(p, sp, hi) < hi ==> p[seg_end(p, sp, hi)] == '/',
        forall|k: int| sp <= k < seg_end(p, sp, hi) ==> p[k] != '/',
    decreases hi - sp,
{
    if sp < hi && p[sp] != '/' {
        lemma_seg_end(p, sp + 1, hi);
    }
}

/// The first position at or after `i` that is not a separator.
pub open spec fn trim_from(p: Seq<char>, i: int) -> int
    decreases p.len() - i,
{
    if i < 0 || i >= p.len() {
        p.len() as int
    } else if p[i] != '/' {
        i
    } else {
        trim_from(p, i + 1)
    }
}

/// The position after the last non-separator before `j`.
pub open spec fn trim_to(p: Seq<char>, j: int) -> int
    decreases j,
{
    if j <= 0 {
        0
    } else if p[j - 1] != '/' {
        j
    } else {
        trim_to(p, j - 1)
    }
}

/// The node's name resolves and equals the path segment `seg` up to ASCII
/// case.
pub open spec fn node_matches(st: Seq<u8>, node: Node, seg: Seq<char>) -> bool {
    &&& name_ok(st, node.name_offset as int)
    &&& fold_eq_seq(seg, spec_name(st, node.name_offset as int))
}

/// Where a directory skip lands: the directory's end index, kept strictly
/// ahead of `idx` and within the node list so that the search always
/// advances.
pub open spec fn skip_to(node_count: int, idx: int, tgt: int) -> int {
    if tgt <= idx + 1 {
        idx + 1
    } else if tgt >= node_count {
        node_count
    } else {
        tgt
    }
}

/// One path search step, exactly as `find` walks the node list: at each node
/// in `[idx, stop)`, a name match either descends into the next segment
/// (bounding the search by the directory's end index) or, on the last
/// segment, returns the node; a mismatching directory is skipped over its
/// subtree; a mismatching file is stepped over.
pub open spec fn find_rec(
    nodes: Seq<Node>,
    st: Seq<u8>,
    p: Seq<char>,
    hi: int,
    sp: int,
    idx: int,
    stop: int,
) -> Option<int>
    decreases nodes.len() - idx,
{
    if idx < 1 || idx >= stop || idx >= nodes.len() {
        None::<int>
    } else {
        let node = nodes[idx];
        let se = seg_end(p, sp, hi);
        if node_matches(st, node, p.subrange(sp, se)) {
            if se < hi {
                find_rec(nodes, st, p, hi, se + 1, idx + 1, node.length as int)
            } else {
                Some(idx)
            }
        } else if node.kind == 1 {
            find_rec(nodes, st, p, hi, sp, skip_to(nodes.len() as int, idx, node.length as int), stop)
        } else {
            find_rec(nodes, st, p, hi, sp, idx + 1, stop)
        }
    }
}

/// The result of searching the FST for the `/`-separated path `p`, after
/// trimming leading and trailing separators.
pub open spec fn spec_find(nodes: Seq<Node>, st: Seq<u8>, p: Seq<char>) -> Option<int> {
    let b = trim_to(p, p.len() as int);
    let a0 = trim_from(p, 0);
    let a = if a0 > b {
        b
    } else {
        a0
    };
    find_rec(nodes, st, p, b, a, 1, nodes.len() as int)
}

impl Fst {
    /// Finds a particular file or directory by path.
    ///
    /// The path is `/`-separated with each segment compared
    /// ASCII-case-insensitively against decoded node names; matching a
    /// non-final segment descends and bounds the search by the matched
    /// node's subtree end.
    pub fn find(&self, path: &str) -> (r: Option<(usize, Node)>)
        ensures
            match r {
                Some(t) => {
                    &&& spec_find(self.nodes@, self.string_table@, path@) == Some(t.0 as int)
                    &&& t.0 < self.nodes@.len()
                    &&& t.1 == self.nodes@[t.0 as int]
                },
                None => spec_find(self.nodes@, self.string_table@, path@) is None,
            },
    {
        let plen = path.unicode_len();
        let mut b: usize = plen;
        while b > 0 && slash_at(path, b - 1)
            invariant
                b <= plen,
                plen == path@.len(),
                trim_to(path@, plen as int) == trim_to(path@, b as int),
            decreases b,
        {
            b = b - 1;
        }
        let mut a: usize = 0;
        while a < plen && slash_at(path, a)
            invariant
                a <= plen,
                plen == path@.len(),
                trim_from(path@, 0) == trim_from(path@, a as int),
            decreases plen - a,
        {
            a = a + 1;
        }
        proof {
            if a == plen {
                assert(trim_from(path@, a as int) == plen);
            } else {
                assert(trim_from(path@, a as int) == a);
            }
            if b == 0 {
                assert(trim_to(path@, b as int) == 0);
            } else {
                assert(trim_to(path@, b as int) == b);
            }
        }
        let mut sp: usize = if a > b {
            b
        } else {
            a
        };
        let hi: usize = b;
        let n = self.nodes.len();
        let mut idx: usize = 1;
        let mut stop: usize = n;
        while idx < stop && idx < n
            invariant
                1 <= idx <= n + 1,
                n == self.nodes@.len(),
                sp <= hi <= plen,
                plen == path@.len(),
                spec_find(self.nodes@, self.string_table@, path@) == find_rec(
                    self.nodes@,
                    self.string_table@,
                    path@,
                    hi as int,
                    sp as int,
                    idx as int,
                    stop as int,
                ),
            decreases n - idx,
        {
            let node = self.nodes[idx];
            let se = seg_end_at(path, sp, hi);
            proof {
                lemma_seg_end(path@, sp as int, hi as int);
            }
            let matched = match self.get_name(&node) {
                Ok(name) => fold_eq_range(name.as_str(), path, sp, se),
                Err(_) => false,
            };
            proof {
                assert(matched == node_matches(
                    self.string_table@,
                    node,
                    path@.subrange(sp as int, se as int),
                ));
            }
            if matched {
                if se < hi {
                    sp = se + 1;
                    idx = idx + 1;
                    stop = node.length as usize;
                } else {
                    return Some((idx, node));
                }
            } else if node.kind == 1 {
                let tgt = node.length as usize;
                idx = if tgt <= idx + 1 {
                    idx + 1
                } else if tgt >= n {
                    n
                } else {
                    tgt
                };
            } else {
                idx = idx + 1;
            }
        }
        None
    }
}

/// The character at `j` is a path separator.
fn slash_at(s: &str, j: usize) -> (r: bool)
    requires
        j < s@.len(),
    ensures
        r == (s@[j as int] == '/'),
{
    let c = s.get_char(j);
    c == '/'
}

/// Scans for the separator ending the segment that starts at `sp`.
fn seg_end_at(path: &str, sp: usize, hi: usize) -> (r: usize)
    requires
        sp <= hi <= path@.len(),
    ensures
        r == seg_end(path@, sp as int, hi as int),
        sp <= r <= hi,
{
    let mut j: usize = sp;
    while j < hi && !slash_at(path, j)
        invariant
            sp <= j <= hi,
            hi <= path@.len(),
            seg_end(path@, sp as int, hi as int) == seg_end(path@, j as int, hi as int),
        decreases hi - j,
    {
        j = j + 1;
    }
    proof {
        lemma_seg_end(path@, j as int, hi as int);
    }
    j
}

/// Reads the 12-byte node at `off`.
fn parse_node(buf: &[u8], off: usize) -> (r: Node)
    requires
        off + 12 <= buf@.len(),
    ensures
        r == spec_node(buf@, off as int),
{
    let _n = buf.len();
    Node {
        kind: read_u8(buf, off),
        name_offset: read_u24_be(buf, off + 1),
        offset: read_u32_be(buf, off + 4),
        length: read_u32_be(buf, off + 8),
    }
}

/// Iterator state over the nodes in an FST; the FST itself is passed to each
/// `next` call.
pub struct FstIter {
    /// Index of the next node to yield.
    pub idx: usize,
}

impl FstIter {
    /// Yields the node at the current index together with its index and its
    /// lazily decoded name, then advances; `None` once past the last node.
    pub fn next(&mut self, fst: &Fst) -> (r: Option<(usize, Node, Result<String>)>)
        ensures
            match r {
                None => old(self).idx >= fst.nodes@.len() && final(self).idx == old(self).idx,
                Some(t) => {
                    &&& t.0 == old(self).idx < fst.nodes@.len()
                    &&& t.1 == fst.nodes@[t.0 as int]
                    &&& final(self).idx == old(self).idx + 1
                    &&& (t.2 is Ok <==> name_ok(fst.string_table@, t.1.name_offset as int))
                    &&& t.2 is Ok ==> t.2->Ok_0@ == spec_name(
                        fst.string_table@,
                        t.1.name_offset as int,
                    )
                },
            },
    {
        if self.idx >= fst.nodes.len() {
            return None;
        }
        let idx = self.idx;
        let node = fst.nodes[idx];
        let name = fst.get_name(&node);
        self.idx = idx + 1;
        Some((idx, node, name))
    }
}

/// The `/`-joined path of a stack of name segments.
pub open spec fn join_segs(names: Seq<Seq<char>>) -> Seq<char>
    decreases names.len(),
{
    if names.len() == 0 {
        Seq::<char>::empty()
    } else if names.len() == 1 {
        names[0]
    } else {
        join_segs(names.drop_last()) + seq!['/'] + names.last()
    }
}

/// How many leading segments of a stack survive reaching node `idx`: all of
/// them up to the first whose subtree ends there.
pub open spec fn live_prefix(ends: Seq<int>, idx: int) -> int
    decreases ends.len(),
{
    if ends.len() == 0 {
        0
    } else if ends[0] == idx {
        0
    } else {
        1 + live_prefix(ends.drop_first(), idx)
    }
}

/// A path-segment stack over an FST walk: feeding it each visited node in
/// order yields the node's `/`-joined path, the way a directory tree is
/// materialized from the flat node list.
pub struct PathWalker {
    /// The live path segments: each name with the node index where its
    /// subtree ends.
    pub segments: Vec<(String, usize)>,
}

impl PathWalker {
    /// An empty stack, for a walk starting at node index 1.
    pub fn new() -> (r: PathWalker)
        ensures
            r.segments@.len() == 0,
    {
        PathWalker { segments: Vec::new() }
    }

    /// Steps the stack to node `idx` with decoded name `name`: segments whose
    /// subtree ended are popped, the node's own segment is pushed (a
    /// directory ends at its end index, a file right behind itself), and the
    /// node's full path is returned.
    pub fn step(&mut self, idx: usize, node: &Node, name: String) -> (r: String)
        requires
            idx < 0xFFFFFFFF,
            node.kind == 1 ==> idx < node.length,
        ensures
            final(self).segments@.len() == live_prefix(
                Seq::new(old(self).segments@.len(), |i: int| old(self).segments@[i].1 as int),
                idx as int,
            ) + 1,
            forall|i: int|
                0 <= i < final(self).segments@.len() - 1 ==> final(self).segments@[i] == old(
                    self,
                ).segments@[i],
            final(self).segments@.last().0@ == name@,
            final(self).segments@.last().1 == (if node.kind == 1 {
                node.length as int
            } else {
                idx + 1
            }),
            r@ == join_segs(
                Seq::new(final(self).segments@.len(), |i: int| final(self).segments@[i].0@),
            ),
    {
        let ghost ends = Seq::new(
            self.segments@.len(),
            |i: int| self.segments@[i].1 as int,
        );
        // Pop the segments whose subtree ended at this node.
        let mut keep: usize = 0;
        let n = self.segments.len();
        proof {
            assert(ends.skip(0) =~= ends);
        }
        while keep < n && self.segments[keep].1 != idx
            invariant
                keep <= n == self.segments@.len(),
                ends == Seq::new(self.segments@.len(), |i: int| self.segments@[i].1 as int),
                live_prefix(ends, idx as int) == keep + live_prefix(
                    ends.skip(keep as int),
                    idx as int,
                ),
            decreases n - keep,
        {
            proof {
                assert(ends.skip(keep as int).drop_first() =~= ends.skip(keep as int + 1));
            }
            keep = keep + 1;
        }
        proof {
            if keep < n {
                assert(live_prefix(ends.skip(keep as int), idx as int) == 0);
            } else {
                assert(ends.skip(keep as int).len() == 0);
            }
        }
        self.segments.truncate(keep);
        let end = if node.kind() == NodeKind::Directory {
            node.length as usize
        } else {
            idx + 1
        };
        self.segments.push((name, end));
        // Join the live segment names.
        let mut path = String::new();
        let mut i: usize = 0;
        let m = self.segments.len();
        while i < m
            invariant
                i <= m == self.segments@.len(),
                path@ == join_segs(
                    Seq::new(i as nat, |j: int| self.segments@[j].0@),
                ),
            decreases m - i,
        {
            if i > 0 {
                path.push_str("/");
            }
            path.push_str(self.segments[i].0.as_str());
            proof {
                reveal_strlit("/");
                let names = Seq::new((i + 1) as nat, |j: int| self.segments@[j].0@);
                assert(names.drop_last() =~= Seq::new(i as nat, |j: int| self.segments@[j].0@));
                if i == 0 {
                    assert(path@ =~= join_segs(names));
                } else {
                    assert(path@ =~= join_segs(names));
                }
            }
            i = i + 1;
        }
        path
    }
}

} // verus!
