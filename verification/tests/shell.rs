use ext2_reader::layout::{DIRECTORY, REGULAR_FILE};
use ext2_reader::shell::{
    bytes_equal, has_prefix, list_working_directory, parse_command, split_fields, step, Command,
    Reply, ROOT_INODE,
};
use ext2_reader::Ext2;

const BS: usize = 1024;

fn put_u16(img: &mut [u8], at: usize, v: u16) {
    img[at..at + 2].copy_from_slice(&v.to_le_bytes());
}

fn put_u32(img: &mut [u8], at: usize, v: u32) {
    img[at..at + 4].copy_from_slice(&v.to_le_bytes());
}

fn put_inode(img: &mut [u8], n: usize, type_perm: u16, size: u32, block: u32) {
    let at = 5 * BS + (n - 1) * 128;
    put_u16(img, at, type_perm);
    put_u32(img, at + 4, size);
    put_u32(img, at + 40, block);
}

fn put_entry(img: &mut [u8], at: usize, inode: u32, entry_size: u16, name: &[u8]) {
    put_u32(img, at, inode);
    put_u16(img, at + 4, entry_size);
    img[at + 6] = name.len() as u8;
    img[at + 8..at + 8 + name.len()].copy_from_slice(name);
}

/// A volume of 32 blocks: the root in block 7 holds a directory `sub`
/// (inode 14), the files `hello.txt` (12) and `broken` (13, whose block is
/// not in the image), and an entry `ghost` for inode 99, which is not there.
fn image() -> Vec<u8> {
    let mut img = vec![0u8; 32 * BS];
    put_u32(&mut img, 1024, 16); // inodes_count
    put_u32(&mut img, 1024 + 4, 32); // blocks_count
    put_u32(&mut img, 1024 + 32, 8192); // blocks_per_group
    put_u32(&mut img, 1024 + 40, 16); // inodes_per_group
    put_u16(&mut img, 1024 + 56, 0xef53);
    put_u32(&mut img, 2048 + 8, 5); // inode table
    put_inode(&mut img, 2, DIRECTORY | 0o755, 1024, 7);
    put_inode(&mut img, 12, REGULAR_FILE | 0o644, 13, 8);
    put_inode(&mut img, 13, REGULAR_FILE | 0o644, 10, 500);
    put_inode(&mut img, 14, DIRECTORY | 0o755, 1024, 9);
    put_inode(&mut img, 15, REGULAR_FILE | 0o644, 9, 10);
    put_inode(&mut img, 16, DIRECTORY | 0o755, 1024, 11);
    let root = 7 * BS;
    put_entry(&mut img, root, 2, 12, b".");
    put_entry(&mut img, root + 12, 2, 12, b"..");
    put_entry(&mut img, root + 24, 14, 12, b"sub");
    put_entry(&mut img, root + 36, 12, 20, b"hello.txt");
    put_entry(&mut img, root + 56, 13, 16, b"broken");
    put_entry(&mut img, root + 72, 99, 16, b"ghost");
    put_entry(&mut img, root + 88, 16, 936, b"bad");
    img[8 * BS..8 * BS + 13].copy_from_slice(b"hello, world\n");
    let sub = 9 * BS;
    put_entry(&mut img, sub, 14, 12, b".");
    put_entry(&mut img, sub + 12, 2, 12, b"..");
    put_entry(&mut img, sub + 24, 15, 1000, b"greet.txt");
    img[10 * BS..10 * BS + 9].copy_from_slice(b"hi there\n");
    put_entry(&mut img, 11 * BS, 16, 2000, b".");
    img
}

fn open(img: &[u8]) -> Ext2<'_> {
    Ext2::new(img, img.as_ptr() as usize).unwrap()
}

#[test]
fn commands_are_told_by_their_first_letters() {
    assert_eq!(parse_command("ls"), Command::Ls);
    assert_eq!(parse_command("ls -l"), Command::Ls);
    assert_eq!(parse_command("lsblk"), Command::Ls);
    assert_eq!(parse_command("cd"), Command::Cd);
    assert_eq!(parse_command("cd sub"), Command::Cd);
    assert_eq!(parse_command("mkdir d"), Command::Mkdir);
    assert_eq!(parse_command("cat f"), Command::Cat);
    assert_eq!(parse_command("catalog"), Command::Cat);
    assert_eq!(parse_command("rm f"), Command::Rm);
    assert_eq!(parse_command("mount a b"), Command::Mount);
    assert_eq!(parse_command("link a b"), Command::Link);
    assert_eq!(parse_command("quit"), Command::Quit);
    assert_eq!(parse_command("exit"), Command::Quit);
    assert_eq!(parse_command("exit now"), Command::Quit);
}

#[test]
fn other_lines_ask_for_nothing() {
    assert_eq!(parse_command(""), Command::Nothing);
    assert_eq!(parse_command("l"), Command::Nothing);
    assert_eq!(parse_command(" ls"), Command::Nothing);
    assert_eq!(parse_command("LS"), Command::Nothing);
    assert_eq!(parse_command("c"), Command::Nothing);
    assert_eq!(parse_command("ca"), Command::Nothing);
    assert_eq!(parse_command("mkdi"), Command::Nothing);
    assert_eq!(parse_command("qui"), Command::Nothing);
    assert_eq!(parse_command("help"), Command::Nothing);
}

#[test]
fn prefix_and_equality_of_bytes() {
    assert!(has_prefix(b"mount", b"mount"));
    assert!(has_prefix(b"mount x", b"mount"));
    assert!(has_prefix(b"anything", b""));
    assert!(has_prefix(b"", b""));
    assert!(!has_prefix(b"moun", b"mount"));
    assert!(!has_prefix(b"mound", b"mount"));
    assert!(!has_prefix(b"", b"m"));
    assert!(bytes_equal(b"", b""));
    assert!(bytes_equal(b"sub", b"sub"));
    assert!(!bytes_equal(b"sub", b"sup"));
    assert!(!bytes_equal(b"sub", b"su"));
    assert!(!bytes_equal(b"su", b"sub"));
    assert!(!bytes_equal(b"", b"s"));
}

#[test]
fn lines_are_split_at_every_space() {
    assert_eq!(split_fields(b""), vec![&b""[..]]);
    assert_eq!(split_fields(b"cd"), vec![&b"cd"[..]]);
    assert_eq!(split_fields(b"cd sub"), vec![&b"cd"[..], b"sub"]);
    assert_eq!(split_fields(b"cd  sub"), vec![&b"cd"[..], b"", b"sub"]);
    assert_eq!(split_fields(b" cd"), vec![&b""[..], b"cd"]);
    assert_eq!(split_fields(b"cd "), vec![&b"cd"[..], b""]);
    assert_eq!(split_fields(b" "), vec![&b""[..], b""]);
    assert_eq!(split_fields(b"a b c"), vec![&b"a"[..], b"b", b"c"]);
    assert_eq!(split_fields(b"a\tb"), vec![&b"a\tb"[..]]);
}

#[test]
fn working_directory_is_listed() {
    let img = image();
    let ext2 = open(&img);
    let dirs = list_working_directory(&ext2, ROOT_INODE).unwrap();
    assert_eq!(dirs.len(), 7);
    assert_eq!(dirs[2], (14usize, &b"sub"[..]));
    assert_eq!(list_working_directory(&ext2, 14).unwrap().len(), 3);
}

#[test]
fn unreadable_working_directory_is_not_listed() {
    let img = image();
    let ext2 = open(&img);
    assert!(list_working_directory(&ext2, 0).is_none());
    assert!(list_working_directory(&ext2, 99).is_none());
    assert!(list_working_directory(&ext2, 12).is_none()); // a file
    assert!(list_working_directory(&ext2, 16).is_none()); // a corrupted directory
}

#[test]
fn ls_lists() {
    let img = image();
    let ext2 = open(&img);
    let dirs = list_working_directory(&ext2, ROOT_INODE).unwrap();
    let turn = step(&ext2, &dirs, ROOT_INODE, Some("ls"));
    assert_eq!(turn.replies, vec![Reply::List]);
    assert_eq!(turn.cwd, ROOT_INODE);
    assert!(!turn.leave);
}

#[test]
fn cd_moves_into_a_directory() {
    let img = image();
    let ext2 = open(&img);
    let dirs = list_working_directory(&ext2, ROOT_INODE).unwrap();
    let turn = step(&ext2, &dirs, ROOT_INODE, Some("cd sub"));
    assert_eq!(turn.cwd, 14);
    assert_eq!(turn.replies, vec![]);
    assert!(!turn.leave);
    let dirs = list_working_directory(&ext2, 14).unwrap();
    let turn = step(&ext2, &dirs, 14, Some("cd .."));
    assert_eq!(turn.cwd, 2);
    let turn = step(&ext2, &dirs, 14, Some("cd ."));
    assert_eq!(turn.cwd, 14);
}

#[test]
fn cd_alone_goes_to_the_root() {
    let img = image();
    let ext2 = open(&img);
    let dirs = list_working_directory(&ext2, 14).unwrap();
    let turn = step(&ext2, &dirs, 14, Some("cd"));
    assert_eq!(turn.cwd, 2);
    assert_eq!(turn.replies, vec![]);
    assert!(!turn.leave);
}

#[test]
fn cd_takes_the_second_field() {
    let img = image();
    let ext2 = open(&img);
    let dirs = list_working_directory(&ext2, ROOT_INODE).unwrap();
    let turn = step(&ext2, &dirs, ROOT_INODE, Some("cd sub and more"));
    assert_eq!(turn.cwd, 14);
    // a space at the end makes an empty name
    let turn = step(&ext2, &dirs, ROOT_INODE, Some("cd "));
    assert_eq!(turn.cwd, ROOT_INODE);
    assert_eq!(turn.replies, vec![Reply::CdNotFound]);
    let turn = step(&ext2, &dirs, ROOT_INODE, Some("cd  sub"));
    assert_eq!(turn.replies, vec![Reply::CdNotFound]);
}

#[test]
fn cd_to_a_file_stays() {
    let img = image();
    let ext2 = open(&img);
    let dirs = list_working_directory(&ext2, ROOT_INODE).unwrap();
    let turn = step(&ext2, &dirs, ROOT_INODE, Some("cd hello.txt"));
    assert_eq!(turn.cwd, ROOT_INODE);
    assert_eq!(turn.replies, vec![Reply::CdNotADirectory(3)]);
    assert!(!turn.leave);
}

#[test]
fn cd_to_an_unknown_name_stays() {
    let img = image();
    let ext2 = open(&img);
    let dirs = list_working_directory(&ext2, ROOT_INODE).unwrap();
    let turn = step(&ext2, &dirs, ROOT_INODE, Some("cd nowhere"));
    assert_eq!(turn.cwd, ROOT_INODE);
    assert_eq!(turn.replies, vec![Reply::CdNotFound]);
    let turn = step(&ext2, &dirs, ROOT_INODE, Some("cd su"));
    assert_eq!(turn.replies, vec![Reply::CdNotFound]);
    let turn = step(&ext2, &dirs, ROOT_INODE, Some("cd subs"));
    assert_eq!(turn.replies, vec![Reply::CdNotFound]);
}

#[test]
fn cd_takes_the_last_directory_of_a_name() {
    let img = image();
    let ext2 = open(&img);
    let dirs = vec![(12usize, &b"x"[..]), (14, b"x"), (2, b"x"), (15, b"x")];
    let turn = step(&ext2, &dirs, 14, Some("cd x"));
    assert_eq!(turn.cwd, 2);
    assert_eq!(turn.replies, vec![Reply::CdNotADirectory(0), Reply::CdNotADirectory(3)]);
}

#[test]
fn entry_without_inode_ends_the_shell() {
    let img = image();
    let ext2 = open(&img);
    let dirs = list_working_directory(&ext2, ROOT_INODE).unwrap();
    let turn = step(&ext2, &dirs, ROOT_INODE, Some("cd ghost"));
    assert_eq!(turn.replies, vec![Reply::MissingInode(5)]);
    assert!(turn.leave);
    let turn = step(&ext2, &dirs, ROOT_INODE, Some("cat ghost"));
    assert_eq!(turn.replies, vec![Reply::MissingInode(5)]);
    assert!(turn.leave);
}

#[test]
fn cat_gives_the_contents() {
    let img = image();
    let ext2 = open(&img);
    let dirs = list_working_directory(&ext2, ROOT_INODE).unwrap();
    let turn = step(&ext2, &dirs, ROOT_INODE, Some("cat hello.txt"));
    assert_eq!(turn.replies, vec![Reply::Contents(b"hello, world\n".to_vec())]);
    assert_eq!(turn.cwd, ROOT_INODE);
    assert!(!turn.leave);
    let dirs = list_working_directory(&ext2, 14).unwrap();
    let turn = step(&ext2, &dirs, 14, Some("cat greet.txt"));
    assert_eq!(turn.replies, vec![Reply::Contents(b"hi there\n".to_vec())]);
}

#[test]
fn cat_of_a_directory_says_so() {
    let img = image();
    let ext2 = open(&img);
    let dirs = list_working_directory(&ext2, ROOT_INODE).unwrap();
    let turn = step(&ext2, &dirs, ROOT_INODE, Some("cat sub"));
    assert_eq!(turn.replies, vec![Reply::CatIsADirectory]);
}

#[test]
fn cat_of_what_is_not_there_says_so() {
    let img = image();
    let ext2 = open(&img);
    let dirs = list_working_directory(&ext2, ROOT_INODE).unwrap();
    let turn = step(&ext2, &dirs, ROOT_INODE, Some("cat nothing"));
    assert_eq!(turn.replies, vec![Reply::CatNoSuchFile]);
    // the file is there and its block is not
    let turn = step(&ext2, &dirs, ROOT_INODE, Some("cat broken"));
    assert_eq!(turn.replies, vec![Reply::CatNoSuchFile]);
}

#[test]
fn cat_wants_one_name() {
    let img = image();
    let ext2 = open(&img);
    let dirs = list_working_directory(&ext2, ROOT_INODE).unwrap();
    for line in ["cat", "cat a b", "cat  hello.txt", "cat hello.txt "] {
        let turn = step(&ext2, &dirs, ROOT_INODE, Some(line));
        assert_eq!(turn.replies, vec![Reply::CatUsage]);
    }
}

#[test]
fn cat_answers_every_entry_of_the_name() {
    let img = image();
    let ext2 = open(&img);
    let dirs = vec![(12usize, &b"f"[..]), (14, b"f"), (15, b"f")];
    let turn = step(&ext2, &dirs, ROOT_INODE, Some("cat f"));
    assert_eq!(
        turn.replies,
        vec![
            Reply::Contents(b"hello, world\n".to_vec()),
            Reply::CatIsADirectory,
            Reply::Contents(b"hi there\n".to_vec()),
        ]
    );
    // two entries of one name count as none found
    let turn = step(&ext2, &dirs[..2], ROOT_INODE, Some("cat f"));
    assert_eq!(
        turn.replies,
        vec![
            Reply::Contents(b"hello, world\n".to_vec()),
            Reply::CatIsADirectory,
            Reply::CatNoSuchFile,
        ]
    );
}

#[test]
fn mkdir_wants_one_name_and_does_nothing_yet() {
    let img = image();
    let ext2 = open(&img);
    let dirs = list_working_directory(&ext2, ROOT_INODE).unwrap();
    let turn = step(&ext2, &dirs, ROOT_INODE, Some("mkdir"));
    assert_eq!(turn.replies, vec![Reply::MkdirUsage]);
    let turn = step(&ext2, &dirs, ROOT_INODE, Some("mkdir a b"));
    assert_eq!(turn.replies, vec![Reply::MkdirUsage]);
    let turn = step(&ext2, &dirs, ROOT_INODE, Some("mkdir new"));
    assert_eq!(turn.replies, vec![Reply::NotImplemented(Command::Mkdir)]);
    assert_eq!(turn.cwd, ROOT_INODE);
}

#[test]
fn rm_mount_and_link_do_nothing_yet() {
    let img = image();
    let ext2 = open(&img);
    let dirs = list_working_directory(&ext2, ROOT_INODE).unwrap();
    let turn = step(&ext2, &dirs, ROOT_INODE, Some("rm hello.txt"));
    assert_eq!(turn.replies, vec![Reply::NotImplemented(Command::Rm)]);
    let turn = step(&ext2, &dirs, ROOT_INODE, Some("mount a b"));
    assert_eq!(turn.replies, vec![Reply::NotImplemented(Command::Mount)]);
    let turn = step(&ext2, &dirs, ROOT_INODE, Some("link a b"));
    assert_eq!(turn.replies, vec![Reply::NotImplemented(Command::Link)]);
    assert!(!turn.leave);
}

#[test]
fn quit_and_exit_leave() {
    let img = image();
    let ext2 = open(&img);
    let dirs = list_working_directory(&ext2, 14).unwrap();
    for line in ["quit", "exit", "quit now"] {
        let turn = step(&ext2, &dirs, 14, Some(line));
        assert!(turn.leave);
        assert_eq!(turn.replies, vec![]);
        assert_eq!(turn.cwd, 14);
    }
}

#[test]
fn end_of_input_says_bye_and_leaves() {
    let img = image();
    let ext2 = open(&img);
    let dirs = list_working_directory(&ext2, 14).unwrap();
    let turn = step(&ext2, &dirs, 14, None);
    assert!(turn.leave);
    assert_eq!(turn.replies, vec![Reply::Bye]);
    assert_eq!(turn.cwd, 14);
}

#[test]
fn unknown_line_changes_nothing() {
    let img = image();
    let ext2 = open(&img);
    let dirs = list_working_directory(&ext2, 14).unwrap();
    for line in ["", "help", " ls"] {
        let turn = step(&ext2, &dirs, 14, Some(line));
        assert!(!turn.leave);
        assert_eq!(turn.replies, vec![]);
        assert_eq!(turn.cwd, 14);
    }
}

#[test]
fn walk_from_the_root_to_a_file() {
    let img = image();
    let ext2 = open(&img);
    let mut cwd = ROOT_INODE;
    let mut said = Vec::new();
    for line in ["ls", "cd sub", "cat greet.txt", "cd", "cat hello.txt", "exit"] {
        let dirs = list_working_directory(&ext2, cwd).unwrap();
        let turn = step(&ext2, &dirs, cwd, Some(line));
        cwd = turn.cwd;
        said.extend(turn.replies);
        if turn.leave {
            break;
        }
    }
    assert_eq!(cwd, ROOT_INODE);
    assert_eq!(
        said,
        vec![
            Reply::List,
            Reply::Contents(b"hi there\n".to_vec()),
            Reply::Contents(b"hello, world\n".to_vec()),
        ]
    );
}
