//! File system table parsing, name decoding, and path search.

use nod::{Fst, NodeKind};

/// Appends one 12-byte node record.
fn push_node(buf: &mut Vec<u8>, kind: u8, name_off: u32, offset: u32, length: u32) {
    buf.push(kind);
    buf.push((name_off >> 16) as u8);
    buf.push((name_off >> 8) as u8);
    buf.push(name_off as u8);
    buf.extend_from_slice(&offset.to_be_bytes());
    buf.extend_from_slice(&length.to_be_bytes());
}

/// An FST with root, a directory `MP3` holding `Worlds.txt`, and a top-level
/// file `other.bin`.
fn sample_fst(file_off: u32, file_len: u32) -> Vec<u8> {
    let mut buf = Vec::new();
    // String table layout: "" (root) at 0, "MP3" at 1, "Worlds.txt" at 5,
    // "other.bin" at 16.
    push_node(&mut buf, 1, 0, 0, 4);
    push_node(&mut buf, 1, 1, 0, 3);
    push_node(&mut buf, 0, 5, file_off, file_len);
    push_node(&mut buf, 0, 16, 0x999, 77);
    buf.extend_from_slice(b"\0MP3\0Worlds.txt\0other.bin\0");
    buf
}

#[test]
fn fst_parses_nodes_and_getters() {
    let buf = sample_fst(0x1000, 22);
    let fst = Fst::new(&buf).unwrap();
    assert_eq!(fst.nodes.len(), 4);
    assert!(matches!(fst.nodes[0].kind(), NodeKind::Directory));
    assert!(fst.nodes[1].is_dir());
    assert!(fst.nodes[2].is_file());
    assert_eq!(fst.nodes[2].name_offset(), 5);
    assert_eq!(fst.nodes[2].length(), 22);
    // On Wii a file's stored offset is re-multiplied by 4.
    assert_eq!(fst.nodes[2].offset(false), 0x1000);
    assert_eq!(fst.nodes[2].offset(true), 0x4000);
    // A directory's offset is the parent index, never shifted.
    assert_eq!(fst.nodes[1].offset(true), 0);
}

#[test]
fn fst_rejects_short_and_overlong() {
    assert!(Fst::new(&[0u8; 4]).is_err());
    // Root length that leaves no string table behind.
    let mut buf = Vec::new();
    push_node(&mut buf, 1, 0, 0, 2);
    assert!(Fst::new(&buf).is_err());
}

#[test]
fn get_name_decodes_and_errors() {
    let buf = sample_fst(0, 1);
    let fst = Fst::new(&buf).unwrap();
    assert_eq!(fst.get_name(&fst.nodes[1]).unwrap(), "MP3");
    assert_eq!(fst.get_name(&fst.nodes[2]).unwrap(), "Worlds.txt");
    // Out-of-bounds name offset.
    let mut bad = Vec::new();
    push_node(&mut bad, 1, 0, 0, 1);
    bad.extend_from_slice(b"\0");
    let f2 = Fst::new(&bad).unwrap();
    let mut n = f2.nodes[0];
    n.name_offset = 100;
    assert!(f2.get_name(&n).is_err());
}

#[test]
fn get_name_shift_jis_and_no_interior_nul() {
    // Shift-JIS for a three-character Japanese name, NUL-terminated.
    let mut buf = Vec::new();
    push_node(&mut buf, 1, 0, 0, 2);
    push_node(&mut buf, 0, 1, 0, 1);
    buf.extend_from_slice(&[0x00, 0x83, 0x65, 0x83, 0x58, 0x83, 0x67, 0x00]);
    let fst = Fst::new(&buf).unwrap();
    let name = fst.get_name(&fst.nodes[1]).unwrap();
    assert_eq!(name, "\u{30c6}\u{30b9}\u{30c8}");
    assert!(!name.contains('\0'));
}

#[test]
fn get_name_rejects_unterminated_and_malformed() {
    // Name runs to the end of the string table without a NUL.
    let mut buf = Vec::new();
    push_node(&mut buf, 1, 0, 0, 1);
    buf.extend_from_slice(b"AB");
    let fst = Fst::new(&buf).unwrap();
    assert!(fst.get_name(&fst.nodes[0]).is_err());
    // A lone Shift-JIS lead byte is malformed.
    let mut buf2 = Vec::new();
    push_node(&mut buf2, 1, 0, 0, 1);
    buf2.extend_from_slice(&[0x83, 0x00]);
    let f2 = Fst::new(&buf2).unwrap();
    assert!(f2.get_name(&f2.nodes[0]).is_err());
}

#[test]
fn find_descends_case_insensitively() {
    let buf = sample_fst(0x40, 22);
    let fst = Fst::new(&buf).unwrap();
    let (idx, node) = fst.find("/MP3/Worlds.txt").unwrap();
    assert_eq!(idx, 2);
    assert_eq!(node.length(), 22);
    let (idx2, _) = fst.find("mp3/WORLDS.TXT").unwrap();
    assert_eq!(idx2, 2);
    let (idx3, _) = fst.find("/other.bin").unwrap();
    assert_eq!(idx3, 3);
    let (idx4, _) = fst.find("MP3").unwrap();
    assert_eq!(idx4, 1);
    assert!(fst.find("/MP3/missing.txt").is_none());
    assert!(fst.find("/nothere").is_none());
    // A file segment with a trailing path does not resolve.
    assert!(fst.find("/other.bin/deeper").is_none());
}

#[test]
fn iter_walks_every_node_with_names() {
    let buf = sample_fst(0, 9);
    let fst = Fst::new(&buf).unwrap();
    let mut it = fst.iter();
    let mut seen = Vec::new();
    while let Some((idx, _node, name)) = it.next(&fst) {
        seen.push((idx, name.unwrap()));
    }
    assert_eq!(seen.len(), 3);
    assert_eq!(seen[0].0, 1);
    assert_eq!(seen[0].1, "MP3");
    assert_eq!(seen[1].1, "Worlds.txt");
    assert_eq!(seen[2].1, "other.bin");
}

#[test]
fn iteration_descendants_match_find() {
    // The descendants a directory's range (d, d.length) yields are exactly
    // the nodes that path search reaches through that directory.
    let buf = sample_fst(0, 9);
    let fst = Fst::new(&buf).unwrap();
    let (dir_idx, dir) = fst.find("/MP3").unwrap();
    let lo = dir_idx + 1;
    let hi = dir.length() as usize;
    let mut by_iteration = Vec::new();
    let mut it = fst.iter();
    while let Some((idx, _node, name)) = it.next(&fst) {
        if idx >= lo && idx < hi {
            by_iteration.push((idx, name.unwrap()));
        }
    }
    let mut by_find = Vec::new();
    for (idx, name) in &by_iteration {
        let path = format!("/MP3/{}", name);
        let (found, _) = fst.find(&path).unwrap();
        assert_eq!(found, *idx);
        by_find.push(*idx);
    }
    assert_eq!(by_iteration.len(), by_find.len());
    assert_eq!(by_iteration.len(), 1);
}

#[test]
fn path_walker_materializes_tree_paths() {
    let buf = sample_fst(0, 9);
    let fst = Fst::new(&buf).unwrap();
    let mut walker = nod::fst::PathWalker::new();
    let mut it = fst.iter();
    let mut paths = Vec::new();
    while let Some((idx, node, name)) = it.next(&fst) {
        paths.push(walker.step(idx, &node, name.unwrap()));
    }
    assert_eq!(paths, vec!["MP3", "MP3/Worlds.txt", "other.bin"]);
}
