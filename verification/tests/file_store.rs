use weak_peer::fs::fs_store::{
    get_all_files, present_paths, ChunkRead, ChunkStep, FileProbe, MetaScan, MetaStep, OpenPlan,
};
use weak_peer::fs::{FsInfo, FsMeta, FsStore, CHUNK_SIZE};

fn store() -> FsStore {
    FsStore::new("/srv/share".to_string())
}

fn strings(items: &[&str]) -> Vec<String> {
    items.iter().map(|s| s.to_string()).collect()
}

fn fingerprint(mut scan: MetaScan, pieces: &[&[u8]]) -> FsMeta {
    for piece in pieces {
        scan = match scan.on_read(piece) {
            MetaStep::More(next) => next,
            MetaStep::Done(_) => panic!("the scan ended before the file did"),
        };
    }
    match scan.on_read(&[]) {
        MetaStep::Done(meta) => meta,
        MetaStep::More(_) => panic!("the scan went on after the file ended"),
    }
}

fn read_range(mut read: ChunkRead, pieces: &[&[u8]]) -> (Vec<u8>, usize) {
    for (i, piece) in pieces.iter().enumerate() {
        read = match read.on_read(piece) {
            ChunkStep::More(next) => next,
            ChunkStep::Done(bytes) => return (bytes, i + 1),
        };
    }
    match read.on_read(&[]) {
        ChunkStep::Done(bytes) => (bytes, pieces.len() + 1),
        ChunkStep::More(_) => panic!("the read went on after the file ended"),
    }
}

fn hex(digest: &[u8; 16]) -> String {
    digest.iter().map(|b| format!("{:02x}", b)).collect()
}

#[test]
fn chunk_size_is_64_kib() {
    assert_eq!(CHUNK_SIZE, 64 * 1024);
}

#[test]
fn blank_fingerprint_is_all_zero() {
    let meta = FsMeta::new();
    assert_eq!(meta.size, 0);
    assert_eq!(meta.md5, [0u8; 16]);
    let meta = FsMeta::default();
    assert_eq!(meta.size, 0);
    assert_eq!(meta.md5, [0u8; 16]);
}

#[test]
fn fingerprint_clone_keeps_size_and_digest() {
    let meta = FsMeta { size: 12, md5: [7u8; 16] };
    let copy = meta.clone();
    assert_eq!(copy.size, 12);
    assert_eq!(copy.md5, [7u8; 16]);
}

#[test]
fn store_keeps_its_root() {
    assert_eq!(store().dir(), "/srv/share");
}

#[test]
fn list_fs_paths_strips_the_root() {
    let files = strings(&[
        "/srv/share/a.txt",
        "/srv/share/sub/b.txt",
        "/srv/shared/c.txt",
        "/elsewhere/d.txt",
        "/srv/share/sub/deep/e",
    ]);
    assert_eq!(store().list_fs_paths(&files), strings(&["a.txt", "sub/b.txt", "sub/deep/e"]));
    assert_eq!(store().list_fs_paths(&Vec::new()), Vec::<String>::new());
}

#[test]
fn get_all_files_keeps_the_order_of_the_scan() {
    let files = strings(&["/r/z", "/q/y", "/r/a", "/r/m/n"]);
    assert_eq!(get_all_files("/r", &files), strings(&["z", "a", "m/n"]));
    assert_eq!(get_all_files("/r/", &files), strings(&["z", "a", "m/n"]));
    assert_eq!(get_all_files("/", &files), strings(&["r/z", "q/y", "r/a", "r/m/n"]));
}

#[test]
fn get_fs_info_pairs_path_and_fingerprint() {
    let meta = FsMeta { size: 3, md5: [1u8; 16] };
    let info: FsInfo = store().get_fs_info("sub/b.txt", meta);
    assert_eq!(info.fs_path, "sub/b.txt");
    assert_eq!(info.meta.size, 3);
    assert_eq!(info.meta.md5, [1u8; 16]);
}

#[test]
fn get_file_names_the_file_and_its_directory() {
    let probe = store().get_file("sub/b.txt");
    assert_eq!(probe.path(), "/srv/share/sub/b.txt");
    assert_eq!(probe.parent(), Some("/srv/share/sub"));
    let probe = store().get_file("../out.txt");
    assert_eq!(probe.path(), "/srv/share/../out.txt");
    assert_eq!(probe.parent(), Some("/srv/share/.."));
}

#[test]
fn get_file_opens_what_exists() {
    let plan = store().get_file("a.txt").plan(true, true);
    assert_eq!(plan, OpenPlan::OpenExisting { path: "/srv/share/a.txt".to_string() });
    let plan = store().get_file("a.txt").plan(true, false);
    assert_eq!(plan, OpenPlan::OpenExisting { path: "/srv/share/a.txt".to_string() });
}

#[test]
fn get_file_creates_a_missing_file() {
    let plan = store().get_file("a.txt").plan(false, true);
    assert_eq!(plan, OpenPlan::Create { path: "/srv/share/a.txt".to_string() });
}

#[test]
fn get_file_creates_missing_directories_first() {
    let plan = store().get_file("x/y/a.txt").plan(false, false);
    assert_eq!(
        plan,
        OpenPlan::CreateWithParents {
            dir: "/srv/share/x/y".to_string(),
            path: "/srv/share/x/y/a.txt".to_string(),
        }
    );
}

#[test]
fn get_file_without_a_directory_creates_the_file() {
    let probe = FsStore::new(String::new()).get_file("");
    assert_eq!(probe.path(), "");
    assert_eq!(probe.parent(), None);
    assert_eq!(probe.plan(false, false), OpenPlan::Create { path: String::new() });
}

#[test]
fn fingerprint_of_the_empty_file() {
    let scan = store().get_fs_meta("empty");
    assert_eq!(scan.path(), "/srv/share/empty");
    assert_eq!(scan.size(), 0);
    let meta = fingerprint(scan, &[]);
    assert_eq!(meta.size, 0);
    assert_eq!(hex(&meta.md5), "d41d8cd98f00b204e9800998ecf8427e");
}

#[test]
fn fingerprint_of_known_contents() {
    let meta = fingerprint(store().get_fs_meta("f"), &[b"abc"]);
    assert_eq!(meta.size, 3);
    assert_eq!(hex(&meta.md5), "900150983cd24fb0d6963f7d28e17f72");
    let meta = fingerprint(store().get_fs_meta("f"), &[b"abcdefghijklmnopqrstuvwxyz"]);
    assert_eq!(meta.size, 26);
    assert_eq!(hex(&meta.md5), "c3fcd3d76192e4007dfb496cca67e13b");
}

#[test]
fn fingerprint_does_not_depend_on_the_cuts() {
    let content = b"The quick brown fox jumps over the lazy dog";
    let whole = fingerprint(store().get_fs_meta("f"), &[content]);
    let halves = fingerprint(store().get_fs_meta("f"), &[&content[..20], &content[20..]]);
    let bytes: Vec<&[u8]> = content.chunks(1).collect();
    let single = fingerprint(store().get_fs_meta("f"), &bytes);
    for meta in [&whole, &halves, &single] {
        assert_eq!(meta.size, 43);
        assert_eq!(hex(&meta.md5), "9e107d9d372bb6826bd81d3542a419d6");
    }
}

#[test]
fn fingerprint_twice_is_the_same() {
    let content: Vec<u8> = (0..200_000usize).map(|i| (i % 251) as u8).collect();
    let pieces: Vec<&[u8]> = content.chunks(CHUNK_SIZE).collect();
    let first = fingerprint(store().get_fs_meta("big"), &pieces);
    let second = fingerprint(store().get_fs_meta("big"), &pieces);
    assert_eq!(first.size, 200_000);
    assert_eq!(first.size, second.size);
    assert_eq!(first.md5, second.md5);
}

#[test]
fn fingerprint_scan_counts_as_it_goes() {
    let scan = store().get_fs_meta("f");
    let scan = match scan.on_read(b"12345") {
        MetaStep::More(next) => next,
        MetaStep::Done(_) => panic!("ended early"),
    };
    assert_eq!(scan.size(), 5);
    assert_eq!(scan.path(), "/srv/share/f");
    let scan = match scan.try_on_read(b"678") {
        Some(MetaStep::More(next)) => next,
        _ => panic!("ended early"),
    };
    assert_eq!(scan.size(), 8);
    match scan.try_on_read(&[]) {
        Some(MetaStep::Done(meta)) => {
            assert_eq!(meta.size, 8);
            assert_eq!(hex(&meta.md5), "25d55ad283aa400af464c76d713c07ad");
        }
        _ => panic!("went on"),
    }
}

#[test]
fn range_read_says_where_to_start() {
    let read = store().get_fs_chunk("sub/b.txt", 0..10);
    assert_eq!(read.path(), "/srv/share/sub/b.txt");
    assert_eq!(read.seek(), None);
    assert_eq!(read.buffered_len(), 0);
    let read = store().get_fs_chunk("sub/b.txt", 65536..131072);
    assert_eq!(read.seek(), Some(65536));
    let read = store().get_fs_chunk("sub/b.txt", 1..1);
    assert_eq!(read.seek(), Some(1));
}

#[test]
fn range_read_returns_exactly_the_range() {
    let (bytes, reads) = read_range(store().get_fs_chunk("f", 2..7), &[b"cdefg", b"hij"]);
    assert_eq!(bytes, b"cdefg".to_vec());
    assert_eq!(reads, 1);
}

#[test]
fn range_read_cuts_off_what_a_read_brought_too_much() {
    let (bytes, reads) = read_range(store().get_fs_chunk("f", 0..4), &[b"ab", b"cdefgh"]);
    assert_eq!(bytes, b"abcd".to_vec());
    assert_eq!(reads, 2);
}

#[test]
fn range_read_past_the_end_returns_what_is_there() {
    let (bytes, reads) = read_range(store().get_fs_chunk("f", 10..110), &[b"klm", b"no"]);
    assert_eq!(bytes, b"klmno".to_vec());
    assert_eq!(reads, 3);
    let (bytes, reads) = read_range(store().get_fs_chunk("f", 500..600), &[]);
    assert_eq!(bytes, Vec::<u8>::new());
    assert_eq!(reads, 1);
}

#[test]
fn range_read_of_an_empty_range_reads_once() {
    let (bytes, reads) = read_range(store().get_fs_chunk("f", 3..3), &[b"defg"]);
    assert_eq!(bytes, Vec::<u8>::new());
    assert_eq!(reads, 1);
    let (bytes, reads) = read_range(store().get_fs_chunk("f", 9..3), &[b"defg"]);
    assert_eq!(bytes, Vec::<u8>::new());
    assert_eq!(reads, 1);
}

#[test]
fn range_read_try_on_read_does_what_on_read_does() {
    let read = store().get_fs_chunk("f", 0..5);
    let read = match read.try_on_read(b"abc") {
        Some(ChunkStep::More(next)) => next,
        _ => panic!("ended early"),
    };
    assert_eq!(read.buffered_len(), 3);
    match read.try_on_read(b"defg") {
        Some(ChunkStep::Done(bytes)) => assert_eq!(bytes, b"abcde".to_vec()),
        _ => panic!("went on"),
    }
}

#[test]
fn present_paths_keeps_what_is_there_in_order() {
    let items = vec![Some("b".to_string()), None, Some("a".to_string()), None, None];
    assert_eq!(present_paths(&items), strings(&["b", "a"]));
    assert_eq!(present_paths(&vec![None, None]), Vec::<String>::new());
    assert_eq!(present_paths(&Vec::new()), Vec::<String>::new());
}

#[test]
fn probe_plans_by_what_is_on_disk() {
    let probe = FileProbe::new("/d/f".to_string(), Some("/d".to_string()));
    assert_eq!(probe.path(), "/d/f");
    assert_eq!(probe.parent(), Some("/d"));
    assert_eq!(
        probe.plan(false, false),
        OpenPlan::CreateWithParents { dir: "/d".to_string(), path: "/d/f".to_string() }
    );
    let probe = FileProbe::new("f".to_string(), None);
    assert_eq!(probe.plan(false, true), OpenPlan::Create { path: "f".to_string() });
    let probe = FileProbe::new("f".to_string(), None);
    assert_eq!(probe.plan(true, false), OpenPlan::OpenExisting { path: "f".to_string() });
}
