//! APT, the package manager of Debian, read through `dpkg-query`.
use vstd::prelude::*;
use crate::text::{
    free_of, lemma_split_two, split, split_spec, string_from_chars, trim, trim_spec, Separator,
};
use super::{
    package_option_view, CommandLine, ListError, ManagerKind, Package, PackageManager, PackageView,
};

verus! {

/// The APT package manager.
pub struct Apt;

/// A line of `dpkg-query -W -f=${Package}\t${Version}\n` shows a package
/// when it has at least two tab-separated columns: the name, which also
/// identifies the package, and the version, each trimmed.
pub open spec fn apt_line_spec(line: Seq<char>) -> Option<PackageView> {
    let cols = split_spec(line, Separator::Char('\t'));
    if cols.len() >= 2 {
        Some(
            PackageView {
                name: trim_spec(cols[0]),
                version: trim_spec(cols[1]),
                id: trim_spec(cols[0]),
            },
        )
    } else {
        None
    }
}

/// The package that a line of the dpkg listing shows, if it shows one.
pub fn apt_line(line: &Vec<char>) -> (r: Option<Package>)
    ensures
        package_option_view(r) == apt_line_spec(line@),
{
    let cols = split(line, Separator::Char('\t'));
    if cols.len() >= 2 {
        let name = trim(&cols[0]);
        let version = trim(&cols[1]);
        Some(
            Package {
                name: string_from_chars(&name),
                version: string_from_chars(&version),
                id: string_from_chars(&name),
            },
        )
    } else {
        None
    }
}

/// A line holding a name and a version with a tab between them reads back as
/// that package, identified by its name, when neither holds a tab or starts
/// or ends with whitespace.
pub proof fn law_apt_line_reads_back(name: Seq<char>, version: Seq<char>)
    requires
        free_of(name, '\t'),
        free_of(version, '\t'),
        trim_spec(name) == name,
        trim_spec(version) == version,
    ensures
        apt_line_spec(name + seq!['\t'] + version) == Some(
            PackageView { name, version, id: name },
        ),
{
    lemma_split_two(name, '\t', version);
}

impl PackageManager for Apt {
    open spec fn kind(&self) -> ManagerKind {
        ManagerKind::Apt
    }

    fn name(&self) -> (r: &'static str) {
        ManagerKind::Apt.display_name()
    }

    fn list_command(&self) -> (r: CommandLine) {
        ManagerKind::Apt.listing_command()
    }

    fn list_packages(&self, output: Vec<u8>) -> (r: Result<Vec<Package>, ListError>) {
        ManagerKind::Apt.parse_output(output)
    }

    fn build_remove_command(&self, packages: &[String]) -> (r: CommandLine) {
        ManagerKind::Apt.removal_command(packages)
    }
}

} // verus!
