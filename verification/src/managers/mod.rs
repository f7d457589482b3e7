//! Package managers: the commands that list and remove packages, and the
//! reading of what the listing command prints.
pub mod apt;
pub mod flatpak;
pub mod pacman;

use vstd::prelude::*;
use vstd::utf8::{decode_utf8, valid_utf8};
use crate::text::{
    chars_of, free_of, law_lines_read_back, lines, lines_spec, strip_cr, strings_view, text_of_lines,
};
use self::apt::{apt_line, apt_line_spec};
use self::flatpak::{flatpak_line, flatpak_line_spec};
use self::pacman::{pacman_line, pacman_line_spec};

verus! {

/// An installed package.
pub struct Package {
    pub name: String,
    pub version: String,
    /// What the removal command is given to remove this package.
    pub id: String,
}

/// A package as texts.
pub struct PackageView {
    pub name: Seq<char>,
    pub version: Seq<char>,
    pub id: Seq<char>,
}

impl View for Package {
    type V = PackageView;

    open spec fn view(&self) -> PackageView {
        PackageView { name: self.name@, version: self.version@, id: self.id@ }
    }
}

pub open spec fn packages_view(v: Seq<Package>) -> Seq<PackageView> {
    v.map_values(|p: Package| p@)
}

pub open spec fn package_option_view(o: Option<Package>) -> Option<PackageView> {
    match o {
        Some(p) => Some(p@),
        None => None,
    }
}

/// Why a listing of the installed packages failed.
#[derive(Clone, Copy, Debug, PartialEq, Eq, Structural)]
pub enum ListError {
    /// The listing command could not be run.
    CommandFailed,
    /// What the listing command printed is not UTF-8.
    InvalidUtf8,
}

/// A command to run: a program and its arguments.
pub struct CommandLine {
    pub program: String,
    pub args: Vec<String>,
}

pub struct CommandLineView {
    pub program: Seq<char>,
    pub args: Seq<Seq<char>>,
}

impl View for CommandLine {
    type V = CommandLineView;

    open spec fn view(&self) -> CommandLineView {
        CommandLineView { program: self.program@, args: strings_view(self.args@) }
    }
}

/// The package managers this program works with.
#[derive(Clone, Copy, Debug, PartialEq, Eq, Structural)]
pub enum ManagerKind {
    Pacman,
    Flatpak,
    Apt,
}

/// The name a manager is shown by.
pub open spec fn name_spec(kind: ManagerKind) -> Seq<char> {
    match kind {
        ManagerKind::Pacman => "Pacman"@,
        ManagerKind::Flatpak => "Flatpak"@,
        ManagerKind::Apt => "APT"@,
    }
}

/// The command that lists the installed packages.
pub open spec fn list_command_spec(kind: ManagerKind) -> CommandLineView {
    match kind {
        ManagerKind::Pacman => CommandLineView { program: "pacman"@, args: seq!["-Q"@] },
        ManagerKind::Flatpak => CommandLineView {
            program: "flatpak"@,
            args: seq!["list"@, "--app"@, "--columns=name,version,application"@],
        },
        ManagerKind::Apt => CommandLineView {
            program: "dpkg-query"@,
            args: seq!["-W"@, "-f=${Package}\t${Version}\n"@],
        },
    }
}

/// The command that removes the packages with the given ids, without asking.
pub open spec fn remove_command_spec(kind: ManagerKind, ids: Seq<Seq<char>>) -> CommandLineView {
    match kind {
        ManagerKind::Pacman => CommandLineView {
            program: "sudo"@,
            args: seq!["pacman"@, "-Rns"@, "--noconfirm"@] + ids,
        },
        ManagerKind::Flatpak => CommandLineView {
            program: "flatpak"@,
            args: seq!["uninstall"@, "-y"@] + ids,
        },
        ManagerKind::Apt => CommandLineView {
            program: "sudo"@,
            args: seq!["apt-get"@, "remove"@, "-y"@] + ids,
        },
    }
}

/// A command line of `program` with the arguments `args`.
pub fn command(program: &str, args: Vec<String>) -> (r: CommandLine)
    ensures
        r.program@ == program@,
        r.args@ == args@,
{
    CommandLine { program: String::from_str(program), args }
}

/// `args` followed by the given ids.
pub fn with_ids(args: Vec<String>, ids: &[String]) -> (r: Vec<String>)
    ensures
        strings_view(r@) == strings_view(args@) + strings_view(ids@),
{
    let mut out = args;
    let ghost start = strings_view(out@);
    let mut i: usize = 0;
    while i < ids.len()
        invariant
            i <= ids@.len(),
            strings_view(out@) == start + strings_view(ids@).take(i as int),
        decreases ids@.len() - i,
    {
        let ghost before = strings_view(out@);
        out.push(ids[i].clone());
        assert(strings_view(out@) =~= before.push(ids@[i as int]@));
        assert(strings_view(ids@).take(i + 1) =~= strings_view(ids@).take(i as int).push(
            ids@[i as int]@,
        ));
        i = i + 1;
    }
    assert(strings_view(ids@).take(i as int) =~= strings_view(ids@));
    out
}

/// The package that one line of the listing shows, if it shows one.
pub open spec fn line_package_spec(kind: ManagerKind, line: Seq<char>) -> Option<PackageView> {
    match kind {
        ManagerKind::Pacman => pacman_line_spec(line),
        ManagerKind::Flatpak => flatpak_line_spec(line),
        ManagerKind::Apt => apt_line_spec(line),
    }
}

/// The packages that the given lines show, in their order.
pub open spec fn parse_lines_spec(kind: ManagerKind, lines: Seq<Seq<char>>) -> Seq<PackageView>
    decreases lines.len(),
{
    if lines.len() == 0 {
        Seq::empty()
    } else {
        let init = parse_lines_spec(kind, lines.drop_last());
        match line_package_spec(kind, lines.last()) {
            Some(p) => init.push(p),
            None => init,
        }
    }
}

/// The packages that a listing shows, line by line.
pub open spec fn parse_spec(kind: ManagerKind, text: Seq<char>) -> Seq<PackageView> {
    parse_lines_spec(kind, lines_spec(text))
}

/// Wrapper of `String::from_utf8`: `Some` exactly when the bytes are valid
/// UTF-8, holding the characters they encode.
#[verifier::external_body]
fn decode_output(bytes: Vec<u8>) -> (r: Option<String>)
    ensures
        r is Some <==> valid_utf8(bytes@),
        r matches Some(s) ==> s@ == decode_utf8(bytes@),
{
    String::from_utf8(bytes).ok()
}

/// What a package manager does: its name, the commands that list and
/// remove packages, and the reading of what the listing command printed.
pub trait PackageManager {
    /// Which of the managers this is.
    spec fn kind(&self) -> ManagerKind;

    /// The name the manager is shown by.
    fn name(&self) -> (r: &'static str)
        ensures
            r@ == name_spec(self.kind()),
    ;

    /// The command that lists the installed packages.
    fn list_command(&self) -> (r: CommandLine)
        ensures
            r@ == list_command_spec(self.kind()),
    ;

    /// The installed packages, read from what the listing command printed:
    /// an error exactly when the output is not UTF-8.
    fn list_packages(&self, output: Vec<u8>) -> (r: Result<Vec<Package>, ListError>)
        ensures
            match r {
                Ok(p) => valid_utf8(output@) && packages_view(p@) == parse_spec(
                    self.kind(),
                    decode_utf8(output@),
                ),
                Err(e) => !valid_utf8(output@) && e == ListError::InvalidUtf8,
            },
    ;

    /// The command that removes the packages with the given ids.
    fn build_remove_command(&self, packages: &[String]) -> (r: CommandLine)
        ensures
            r@ == remove_command_spec(self.kind(), strings_view(packages@)),
    ;
}

impl ManagerKind {
    /// The package that one line of the listing shows, if it shows one.
    pub fn line_package(&self, line: &Vec<char>) -> (r: Option<Package>)
        ensures
            package_option_view(r) == line_package_spec(*self, line@),
    {
        match self {
            ManagerKind::Pacman => pacman_line(line),
            ManagerKind::Flatpak => flatpak_line(line),
            ManagerKind::Apt => apt_line(line),
        }
    }

    /// The packages that a listing shows.
    pub fn parse_text(&self, text: &str) -> (r: Vec<Package>)
        ensures
            packages_view(r@) == parse_spec(*self, text@),
    {
        let chars = chars_of(text);
        let ls = lines(&chars);
        let ghost lv = lines_spec(text@);
        let mut out: Vec<Package> = Vec::new();
        let mut i: usize = 0;
        assert(lv.take(0) =~= Seq::<Seq<char>>::empty());
        while i < ls.len()
            invariant
                i <= ls@.len(),
                lv.len() == ls@.len(),
                forall|k: int| 0 <= k < ls@.len() ==> #[trigger] ls@[k]@ == lv[k],
                packages_view(out@) == parse_lines_spec(*self, lv.take(i as int)),
            decreases ls@.len() - i,
        {
            assert(lv.take(i + 1).drop_last() =~= lv.take(i as int));
            assert(lv.take(i + 1).last() == ls@[i as int]@);
            let found = self.line_package(&ls[i]);
            match found {
                Some(p) => {
                    let ghost before = packages_view(out@);
                    out.push(p);
                    assert(packages_view(out@) =~= before.push(p@));
                },
                None => {},
            }
            i = i + 1;
        }
        assert(lv.take(i as int) =~= lv);
        out
    }

    /// The name the manager is shown by.
    pub fn display_name(&self) -> (r: &'static str)
        ensures
            r@ == name_spec(*self),
    {
        match self {
            ManagerKind::Pacman => "Pacman",
            ManagerKind::Flatpak => "Flatpak",
            ManagerKind::Apt => "APT",
        }
    }

    /// The command that lists the installed packages.
    pub fn listing_command(&self) -> (r: CommandLine)
        ensures
            r@ == list_command_spec(*self),
    {
        let mut args: Vec<String> = Vec::new();
        let r = match self {
            ManagerKind::Pacman => {
                args.push(String::from_str("-Q"));
                command("pacman", args)
            },
            ManagerKind::Flatpak => {
                args.push(String::from_str("list"));
                args.push(String::from_str("--app"));
                args.push(String::from_str("--columns=name,version,application"));
                command("flatpak", args)
            },
            ManagerKind::Apt => {
                args.push(String::from_str("-W"));
                args.push(String::from_str("-f=${Package}\t${Version}\n"));
                command("dpkg-query", args)
            },
        };
        assert(r@.args =~= list_command_spec(*self).args);
        r
    }

    /// The command that removes the packages with the given ids.
    pub fn removal_command(&self, ids: &[String]) -> (r: CommandLine)
        ensures
            r@ == remove_command_spec(*self, strings_view(ids@)),
    {
        let mut args: Vec<String> = Vec::new();
        let r = match self {
            ManagerKind::Pacman => {
                args.push(String::from_str("pacman"));
                args.push(String::from_str("-Rns"));
                args.push(String::from_str("--noconfirm"));
                command("sudo", with_ids(args, ids))
            },
            ManagerKind::Flatpak => {
                args.push(String::from_str("uninstall"));
                args.push(String::from_str("-y"));
                command("flatpak", with_ids(args, ids))
            },
            ManagerKind::Apt => {
                args.push(String::from_str("apt-get"));
                args.push(String::from_str("remove"));
                args.push(String::from_str("-y"));
                command("sudo", with_ids(args, ids))
            },
        };
        assert(r@.args =~= remove_command_spec(*self, strings_view(ids@)).args);
        r
    }

    /// The packages that the listing command printed: an error exactly when
    /// the output is not UTF-8.
    pub fn parse_output(&self, output: Vec<u8>) -> (r: Result<Vec<Package>, ListError>)
        ensures
            match r {
                Ok(p) => valid_utf8(output@) && packages_view(p@) == parse_spec(
                    *self,
                    decode_utf8(output@),
                ),
                Err(e) => !valid_utf8(output@) && e == ListError::InvalidUtf8,
            },
    {
        let ghost bytes = output@;
        match decode_output(output) {
            Some(text) => Ok(self.parse_text(text.as_str())),
            None => Err(ListError::InvalidUtf8),
        }
    }
}

/// Reading one more line adds exactly the package that line shows, at the
/// end, and nothing when it shows none.
pub proof fn law_listing_adds_each_line(kind: ManagerKind, ls: Seq<Seq<char>>, l: Seq<char>)
    ensures
        line_package_spec(kind, l) matches Some(p) ==> parse_lines_spec(kind, ls.push(l))
            == parse_lines_spec(kind, ls).push(p),
        line_package_spec(kind, l) is None ==> parse_lines_spec(kind, ls.push(l))
            == parse_lines_spec(kind, ls),
{
    assert(ls.push(l).drop_last() =~= ls);
}

/// When every line shows a package, the listing holds one package per line,
/// in the order of the lines.
pub proof fn law_listing_one_package_per_line(kind: ManagerKind, ls: Seq<Seq<char>>)
    requires
        forall|k: int| 0 <= k < ls.len() ==> (#[trigger] line_package_spec(kind, ls[k])) is Some,
    ensures
        parse_lines_spec(kind, ls).len() == ls.len(),
        forall|k: int|
            0 <= k < ls.len() ==> line_package_spec(kind, ls[k]) == Some(
                #[trigger] parse_lines_spec(kind, ls)[k],
            ),
    decreases ls.len(),
{
    if ls.len() > 0 {
        let init = ls.drop_last();
        assert forall|k: int| 0 <= k < init.len() implies (#[trigger] line_package_spec(
            kind,
            init[k],
        )) is Some by {
            assert(init[k] == ls[k]);
            assert(line_package_spec(kind, ls[k]) is Some);
        }
        law_listing_one_package_per_line(kind, init);
        assert(line_package_spec(kind, ls[ls.len() - 1]) is Some);
        assert forall|k: int| 0 <= k < ls.len() implies line_package_spec(kind, ls[k]) == Some(
            #[trigger] parse_lines_spec(kind, ls)[k],
        ) by {
            if k < init.len() {
                assert(init[k] == ls[k]);
                assert(line_package_spec(kind, init[k]) == Some(parse_lines_spec(kind, init)[k]));
            }
        }
    }
}

/// A listing made of lines, each ended by a line feed, is read line by line:
/// its packages are those that its lines show, in their order.
pub proof fn law_listing_read_by_lines(kind: ManagerKind, ls: Seq<Seq<char>>)
    requires
        forall|k: int| 0 <= k < ls.len() ==> free_of(#[trigger] ls[k], '\n'),
        forall|k: int| 0 <= k < ls.len() ==> strip_cr(#[trigger] ls[k]) == ls[k],
    ensures
        parse_spec(kind, text_of_lines(ls)) == parse_lines_spec(kind, ls),
{
    law_lines_read_back(ls);
}

impl PackageManager for ManagerKind {
    open spec fn kind(&self) -> ManagerKind {
        *self
    }

    fn name(&self) -> (r: &'static str) {
        self.display_name()
    }

    fn list_command(&self) -> (r: CommandLine) {
        self.listing_command()
    }

    fn list_packages(&self, output: Vec<u8>) -> (r: Result<Vec<Package>, ListError>) {
        self.parse_output(output)
    }

    fn build_remove_command(&self, packages: &[String]) -> (r: CommandLine) {
        self.removal_command(packages)
    }
}

} // verus!
