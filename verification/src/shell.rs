//! The decisions of an interactive shell on a volume: what a line asks for,
//! and what is to be done and said in reply. Reading lines and printing are
//! left to the caller, who hands in each line and acts on the [`Turn`] that
//! comes back.

use crate::dir::{items_of, DirItems};
use crate::image::Ext2;
use crate::volume::Volume;
use vstd::prelude::*;
use vstd::slice::slice_subrange;
use vstd::string::StringSliceAdditionalSpecFns;

verus! {

/// The inode number of the root directory.
pub const ROOT_INODE: usize = 2;

/// The byte that parts the fields of a line.
pub const SPACE: u8 = 0x20;

/// What a line asks for.
#[derive(Clone, Copy, Debug, PartialEq, Eq, Structural)]
pub enum Command {
    /// List the working directory.
    Ls,
    /// Change the working directory.
    Cd,
    /// Make a directory.
    Mkdir,
    /// Print a file.
    Cat,
    /// Remove a file or an empty directory.
    Rm,
    /// Mount a filesystem on a directory.
    Mount,
    /// Make a hard link.
    Link,
    /// Leave the shell.
    Quit,
    /// Nothing that the shell knows.
    Nothing,
}

/// One thing that the shell has to say in reply to a line.
#[derive(Debug, PartialEq, Eq)]
pub enum Reply {
    /// The names of the working directory are to be listed.
    List,
    /// `cd`: the entry at this index of the listing has the name asked for
    /// and is no directory.
    CdNotADirectory(usize),
    /// `cd`: no entry has the name asked for.
    CdNotFound,
    /// `cat` was not given exactly one name.
    CatUsage,
    /// `cat`: an entry has the name asked for and is a directory.
    CatIsADirectory,
    /// `cat`: no entry has the name asked for, or its file cannot be read.
    CatNoSuchFile,
    /// `cat`: the contents of the file asked for.
    Contents(Vec<u8>),
    /// `mkdir` was not given exactly one name.
    MkdirUsage,
    /// The command is known and does nothing yet.
    NotImplemented(Command),
    /// The entry at this index of the listing names an inode that the image
    /// does not hold; the shell cannot go on.
    MissingInode(usize),
    /// The input has ended.
    Bye,
}

/// A reply as plain values; the variants are those of [`Reply`].
pub enum Said {
    /// The names of the working directory are to be listed.
    List,
    /// `cd`: the entry at this index is no directory.
    CdNotADirectory(int),
    /// `cd`: no entry has the name.
    CdNotFound,
    /// `cat` was not given exactly one name.
    CatUsage,
    /// `cat`: an entry with the name is a directory.
    CatIsADirectory,
    /// `cat`: no entry has the name, or its file cannot be read.
    CatNoSuchFile,
    /// `cat`: the contents of the file.
    Contents(Seq<u8>),
    /// `mkdir` was not given exactly one name.
    MkdirUsage,
    /// The command does nothing yet.
    NotImplemented(Command),
    /// The entry at this index names an inode that the image does not hold.
    MissingInode(int),
    /// The input has ended.
    Bye,
}

impl View for Reply {
    type V = Said;

    open spec fn view(&self) -> Said {
        match *self {
            Reply::List => Said::List,
            Reply::CdNotADirectory(k) => Said::CdNotADirectory(k as int),
            Reply::CdNotFound => Said::CdNotFound,
            Reply::CatUsage => Said::CatUsage,
            Reply::CatIsADirectory => Said::CatIsADirectory,
            Reply::CatNoSuchFile => Said::CatNoSuchFile,
            Reply::Contents(data) => Said::Contents(data@),
            Reply::MkdirUsage => Said::MkdirUsage,
            Reply::NotImplemented(command) => Said::NotImplemented(command),
            Reply::MissingInode(k) => Said::MissingInode(k as int),
            Reply::Bye => Said::Bye,
        }
    }
}

/// What the shell does on one line: where it stands afterwards, whether it
/// leaves, and what it says, in order.
#[derive(Debug)]
pub struct Turn {
    /// The inode of the working directory after the line.
    pub cwd: usize,
    /// Whether the shell ends with this line.
    pub leave: bool,
    /// What is to be said, in order.
    pub replies: Vec<Reply>,
}

/// A turn as plain values.
pub struct TurnView {
    /// The inode of the working directory after the line.
    pub cwd: int,
    /// Whether the shell ends with this line.
    pub leave: bool,
    /// What is to be said, in order.
    pub said: Seq<Said>,
}

impl TurnView {
    /// The turn with one more reply.
    pub open spec fn say(self, reply: Said) -> TurnView {
        TurnView { said: self.said.push(reply), ..self }
    }

    /// The turn, ending the shell.
    pub open spec fn leaving(self) -> TurnView {
        TurnView { leave: true, ..self }
    }

    /// The turn, with the working directory moved to `inode`.
    pub open spec fn moved(self, inode: int) -> TurnView {
        TurnView { cwd: inode, ..self }
    }
}

impl View for Turn {
    type V = TurnView;

    open spec fn view(&self) -> TurnView {
        TurnView {
            cwd: self.cwd as int,
            leave: self.leave,
            said: Seq::new(self.replies@.len(), |i: int| self.replies@[i]@),
        }
    }
}

impl Turn {
    /// The turn that stays at `cwd` and says nothing.
    fn stay(cwd: usize) -> (turn: Turn)
        ensures
            turn@ == quiet(cwd as int),
    {
        let turn = Turn { cwd, leave: false, replies: Vec::new() };
        assert(turn@.said =~= Seq::empty());
        turn
    }

    /// Adds a reply.
    fn say(self, reply: Reply) -> (turn: Turn)
        ensures
            turn@ == self@.say(reply@),
    {
        let mut replies = self.replies;
        replies.push(reply);
        let turn = Turn { cwd: self.cwd, leave: self.leave, replies };
        assert(turn@.said =~= self@.said.push(reply@));
        turn
    }

    /// Ends the shell.
    fn leaving(self) -> (turn: Turn)
        ensures
            turn@ == self@.leaving(),
    {
        Turn { cwd: self.cwd, leave: true, replies: self.replies }
    }

    /// Moves the working directory.
    fn moved(self, inode: usize) -> (turn: Turn)
        ensures
            turn@ == self@.moved(inode as int),
    {
        Turn { cwd: inode, leave: self.leave, replies: self.replies }
    }
}

/// The turn that stays at `cwd` and says nothing.
pub open spec fn quiet(cwd: int) -> TurnView {
    TurnView { cwd, leave: false, said: Seq::empty() }
}

/// Whether `line` begins with `word`.
pub open spec fn starts_with(line: Seq<u8>, word: Seq<u8>) -> bool {
    word.len() <= line.len() && line.subrange(0, word.len() as int) == word
}

/// The command that a line asks for: the first of the shell's words, in this
/// order, with which the line begins.
pub open spec fn command_of(line: Seq<u8>) -> Command {
    if starts_with(line, "ls".spec_bytes()) {
        Command::Ls
    } else if starts_with(line, "cd".spec_bytes()) {
        Command::Cd
    } else if starts_with(line, "mkdir".spec_bytes()) {
        Command::Mkdir
    } else if starts_with(line, "cat".spec_bytes()) {
        Command::Cat
    } else if starts_with(line, "rm".spec_bytes()) {
        Command::Rm
    } else if starts_with(line, "mount".spec_bytes()) {
        Command::Mount
    } else if starts_with(line, "link".spec_bytes()) {
        Command::Link
    } else if starts_with(line, "quit".spec_bytes()) || starts_with(line, "exit".spec_bytes()) {
        Command::Quit
    } else {
        Command::Nothing
    }
}

/// The index of the first space of `line` at or behind `from`, or the length
/// of the line where there is none.
pub open spec fn first_space(line: Seq<u8>, from: int) -> int
    decreases line.len() - from,
{
    if from >= line.len() {
        line.len() as int
    } else if line[from] == SPACE {
        from
    } else {
        first_space(line, from + 1)
    }
}

/// The first space at or behind `from` is not before `from` nor behind the
/// end, and no space lies between.
pub proof fn lemma_first_space(line: Seq<u8>, from: int)
    requires
        0 <= from <= line.len(),
    ensures
        from <= first_space(line, from) <= line.len(),
        forall|j: int| from <= j < first_space(line, from) ==> line[j] != SPACE,
        first_space(line, from) < line.len() ==> line[first_space(line, from)] == SPACE,
    decreases line.len() - from,
{
    if from < line.len() && line[from] != SPACE {
        lemma_first_space(line, from + 1);
    }
}

/// The fields of `line` from index `from` on: the parts between its spaces.
/// Two spaces in a row have an empty field between them.
pub open spec fn fields_from(line: Seq<u8>, from: int) -> Seq<Seq<u8>>
    decreases line.len() - from,
{
    let end = first_space(line, from);
    if from < 0 || from > line.len() {
        Seq::empty()
    } else if end >= line.len() {
        seq![line.subrange(from, line.len() as int)]
    } else {
        proof {
            lemma_first_space(line, from);
        }
        seq![line.subrange(from, end)] + fields_from(line, end + 1)
    }
}

/// The fields of a line; there is always at least one.
pub open spec fn fields(line: Seq<u8>) -> Seq<Seq<u8>> {
    fields_from(line, 0)
}

/// Slices as plain values.
pub open spec fn slices_of(parts: Seq<&[u8]>) -> Seq<Seq<u8>> {
    Seq::new(parts.len(), |i: int| parts[i]@)
}

/// What `cd` to `name` does from entry `k` of the listing on, `so_far` being
/// the turn up to there and `found` whether an entry had the name. Every
/// entry with the name counts: a directory becomes the working directory,
/// anything else is named in a reply.
pub open spec fn cd_from(
    vol: Volume,
    entries: DirItems,
    name: Seq<u8>,
    k: int,
    so_far: TurnView,
    found: bool,
) -> TurnView
    decreases entries.len() - k,
{
    if k < 0 || k >= entries.len() {
        if found {
            so_far
        } else {
            so_far.say(Said::CdNotFound)
        }
    } else if entries[k].1 != name {
        cd_from(vol, entries, name, k + 1, so_far, found)
    } else if !vol.has_inode(entries[k].0 as int) {
        so_far.say(Said::MissingInode(k)).leaving()
    } else if vol.inode(entries[k].0 as int).is_directory() {
        cd_from(vol, entries, name, k + 1, so_far.moved(entries[k].0 as int), true)
    } else {
        cd_from(vol, entries, name, k + 1, so_far.say(Said::CdNotADirectory(k)), true)
    }
}

/// What `cat` of `name` does from entry `k` of the listing on. Every entry
/// with the name is answered; an even number of them counts as none found.
pub open spec fn cat_from(
    vol: Volume,
    entries: DirItems,
    name: Seq<u8>,
    k: int,
    so_far: TurnView,
    found: bool,
) -> TurnView
    decreases entries.len() - k,
{
    if k < 0 || k >= entries.len() {
        if found {
            so_far
        } else {
            so_far.say(Said::CatNoSuchFile)
        }
    } else if entries[k].1 != name {
        cat_from(vol, entries, name, k + 1, so_far, found)
    } else if !vol.has_inode(entries[k].0 as int) {
        so_far.say(Said::MissingInode(k)).leaving()
    } else {
        let reply = if vol.inode(entries[k].0 as int).is_directory() {
            Said::CatIsADirectory
        } else {
            match vol.file_contents(entries[k].0 as int) {
                Ok(data) => Said::Contents(data),
                Err(_) => Said::CatNoSuchFile,
            }
        };
        cat_from(vol, entries, name, k + 1, so_far.say(reply), !found)
    }
}

/// What the shell does at working directory `cwd`, whose listing is
/// `entries`, on `line`; no line means that the input has ended.
pub open spec fn stepped(
    vol: Volume,
    entries: DirItems,
    cwd: int,
    line: Option<Seq<u8>>,
) -> TurnView {
    match line {
        None => quiet(cwd).say(Said::Bye).leaving(),
        Some(line) => match command_of(line) {
            Command::Ls => quiet(cwd).say(Said::List),
            Command::Cd => if fields(line).len() == 1 {
                quiet(ROOT_INODE as int)
            } else {
                cd_from(vol, entries, fields(line)[1], 0, quiet(cwd), false)
            },
            Command::Mkdir => if fields(line).len() != 2 {
                quiet(cwd).say(Said::MkdirUsage)
            } else {
                quiet(cwd).say(Said::NotImplemented(Command::Mkdir))
            },
            Command::Cat => if fields(line).len() != 2 {
                quiet(cwd).say(Said::CatUsage)
            } else {
                cat_from(vol, entries, fields(line)[1], 0, quiet(cwd), false)
            },
            Command::Rm => quiet(cwd).say(Said::NotImplemented(Command::Rm)),
            Command::Mount => quiet(cwd).say(Said::NotImplemented(Command::Mount)),
            Command::Link => quiet(cwd).say(Said::NotImplemented(Command::Link)),
            Command::Quit => quiet(cwd).leaving(),
            Command::Nothing => quiet(cwd),
        },
    }
}

/// The listing of the working directory, if it can be read.
pub open spec fn listed(vol: Volume, cwd: int) -> Option<DirItems> {
    if !vol.has_inode(cwd) {
        None
    } else {
        match vol.dir_entries(cwd) {
            Ok(entries) => Some(entries),
            Err(_) => None,
        }
    }
}

/// Whether two byte slices hold the same bytes.
pub fn bytes_equal(a: &[u8], b: &[u8]) -> (same: bool)
    ensures
        same == (a@ == b@),
{
    if a.len() != b.len() {
        return false;
    }
    let mut i: usize = 0;
    while i < a.len()
        invariant
            i <= a.len(),
            a.len() == b.len(),
            forall|j: int| 0 <= j < i ==> a@[j] == b@[j],
        decreases a.len() - i,
    {
        if a[i] != b[i] {
            return false;
        }
        i = i + 1;
    }
    assert(a@ =~= b@);
    true
}

/// Whether `line` begins with `word`.
pub fn has_prefix(line: &[u8], word: &[u8]) -> (b: bool)
    ensures
        b == starts_with(line@, word@),
{
    if word.len() > line.len() {
        return false;
    }
    let mut i: usize = 0;
    while i < word.len()
        invariant
            i <= word.len() <= line.len(),
            forall|j: int| 0 <= j < i ==> line@[j] == word@[j],
        decreases word.len() - i,
    {
        if line[i] != word[i] {
            return false;
        }
        i = i + 1;
    }
    assert(line@.subrange(0, word@.len() as int) =~= word@);
    true
}

/// Reads the command that a line asks for.
pub fn parse_command(line: &str) -> (command: Command)
    ensures
        command == command_of(line.spec_bytes()),
{
    let bytes = line.as_bytes();
    if has_prefix(bytes, "ls".as_bytes()) {
        Command::Ls
    } else if has_prefix(bytes, "cd".as_bytes()) {
        Command::Cd
    } else if has_prefix(bytes, "mkdir".as_bytes()) {
        Command::Mkdir
    } else if has_prefix(bytes, "cat".as_bytes()) {
        Command::Cat
    } else if has_prefix(bytes, "rm".as_bytes()) {
        Command::Rm
    } else if has_prefix(bytes, "mount".as_bytes()) {
        Command::Mount
    } else if has_prefix(bytes, "link".as_bytes()) {
        Command::Link
    } else if has_prefix(bytes, "quit".as_bytes()) || has_prefix(bytes, "exit".as_bytes()) {
        Command::Quit
    } else {
        Command::Nothing
    }
}

/// Splits a line at its spaces. The fields are borrowed from the line.
pub fn split_fields<'a>(line: &'a [u8]) -> (parts: Vec<&'a [u8]>)
    ensures
        slices_of(parts@) == fields(line@),
        parts@.len() >= 1,
{
    let mut parts: Vec<&'a [u8]> = Vec::new();
    let mut start: usize = 0;
    let mut i: usize = 0;
    while i < line.len()
        invariant
            start <= i <= line.len(),
            forall|j: int| start <= j < i ==> line@[j] != SPACE,
            fields(line@) == slices_of(parts@) + fields_from(line@, start as int),
        decreases line.len() - i,
    {
        if line[i] == SPACE {
            let part = slice_subrange(line, start, i);
            proof {
                lemma_first_space(line@, start as int);
                assert(slices_of(parts@) + (seq![part@] + fields_from(line@, i + 1)) =~= (slices_of(
                    parts@,
                ) + seq![part@]) + fields_from(line@, i + 1));
            }
            parts.push(part);
            start = i + 1;
        }
        i = i + 1;
    }
    let part = slice_subrange(line, start, line.len());
    proof {
        lemma_first_space(line@, start as int);
    }
    parts.push(part);
    parts
}

/// Changes the working directory to the entry of the listing named `name`.
fn change_directory<'a>(
    ext2: &Ext2<'a>,
    dirs: &[(usize, &'a [u8])],
    name: &[u8],
    start: Turn,
) -> (r: Turn)
    ensures
        r@ == cd_from(ext2@, items_of(dirs@), name@, 0, start@, false),
{
    let ghost goal = cd_from(ext2@, items_of(dirs@), name@, 0, start@, false);
    let mut turn = start;
    let mut found = false;
    let mut k: usize = 0;
    while k < dirs.len()
        invariant
            k <= dirs.len(),
            goal == cd_from(ext2@, items_of(dirs@), name@, 0, start@, false),
            goal == cd_from(ext2@, items_of(dirs@), name@, k as int, turn@, found),
        decreases dirs.len() - k,
    {
        if bytes_equal(dirs[k].1, name) {
            if !ext2.has_inode(dirs[k].0) {
                return turn.say(Reply::MissingInode(k)).leaving();
            }
            found = true;
            if ext2.get_inode(dirs[k].0).is_directory() {
                turn = turn.moved(dirs[k].0);
            } else {
                turn = turn.say(Reply::CdNotADirectory(k));
            }
        }
        k = k + 1;
    }
    if !found {
        turn = turn.say(Reply::CdNotFound);
    }
    turn
}

/// Answers `cat` for the entries of the listing named `name`.
fn print_file<'a>(
    ext2: &Ext2<'a>,
    dirs: &[(usize, &'a [u8])],
    name: &[u8],
    start: Turn,
) -> (r: Turn)
    ensures
        r@ == cat_from(ext2@, items_of(dirs@), name@, 0, start@, false),
{
    let ghost goal = cat_from(ext2@, items_of(dirs@), name@, 0, start@, false);
    let mut turn = start;
    let mut found = false;
    let mut k: usize = 0;
    while k < dirs.len()
        invariant
            k <= dirs.len(),
            goal == cat_from(ext2@, items_of(dirs@), name@, 0, start@, false),
            goal == cat_from(ext2@, items_of(dirs@), name@, k as int, turn@, found),
        decreases dirs.len() - k,
    {
        if bytes_equal(dirs[k].1, name) {
            if !ext2.has_inode(dirs[k].0) {
                return turn.say(Reply::MissingInode(k)).leaving();
            }
            found = !found;
            if ext2.get_inode(dirs[k].0).is_directory() {
                turn = turn.say(Reply::CatIsADirectory);
            } else {
                match ext2.read_file_contents(dirs[k].0) {
                    Ok(content) => {
                        turn = turn.say(Reply::Contents(content));
                    },
                    Err(_) => {
                        turn = turn.say(Reply::CatNoSuchFile);
                    },
                }
            }
        }
        k = k + 1;
    }
    if !found {
        turn = turn.say(Reply::CatNoSuchFile);
    }
    turn
}

/// Reads the listing of the working directory, with which the shell answers
/// the next line. Without it the shell cannot go on.
pub fn list_working_directory<'a>(ext2: &Ext2<'a>, cwd: usize) -> (r: Option<
    Vec<(usize, &'a [u8])>,
>)
    ensures
        match r {
            Some(dirs) => listed(ext2@, cwd as int) == Some(items_of(dirs@)),
            None => listed(ext2@, cwd as int) is None,
        },
{
    if !ext2.has_inode(cwd) {
        return None;
    }
    match ext2.read_dir_inode(cwd) {
        Ok(dirs) => Some(dirs),
        Err(_) => None,
    }
}

/// Decides what the shell does on `line` at working directory `cwd`, whose
/// listing is `dirs`. No line means that the input has ended.
pub fn step<'a>(
    ext2: &Ext2<'a>,
    dirs: &[(usize, &'a [u8])],
    cwd: usize,
    line: Option<&str>,
) -> (turn: Turn)
    ensures
        turn@ == stepped(
            ext2@,
            items_of(dirs@),
            cwd as int,
            match line {
                Some(text) => Some(text.spec_bytes()),
                None => None,
            },
        ),
{
    let turn = Turn::stay(cwd);
    let text = match line {
        Some(text) => text,
        None => {
            return turn.say(Reply::Bye).leaving();
        },
    };
    let bytes = text.as_bytes();
    match parse_command(text) {
        Command::Ls => turn.say(Reply::List),
        Command::Cd => {
            let elts = split_fields(bytes);
            if elts.len() == 1 {
                Turn::stay(ROOT_INODE)
            } else {
                change_directory(ext2, dirs, elts[1], turn)
            }
        },
        Command::Mkdir => {
            let elts = split_fields(bytes);
            if elts.len() != 2 {
                turn.say(Reply::MkdirUsage)
            } else {
                turn.say(Reply::NotImplemented(Command::Mkdir))
            }
        },
        Command::Cat => {
            let elts = split_fields(bytes);
            if elts.len() != 2 {
                turn.say(Reply::CatUsage)
            } else {
                print_file(ext2, dirs, elts[1], turn)
            }
        },
        Command::Rm => turn.say(Reply::NotImplemented(Command::Rm)),
        Command::Mount => turn.say(Reply::NotImplemented(Command::Mount)),
        Command::Link => turn.say(Reply::NotImplemented(Command::Link)),
        Command::Quit => turn.leaving(),
        Command::Nothing => turn,
    }
}

} // verus!
