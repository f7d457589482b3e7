//! Flatpak, which installs desktop applications.
use vstd::prelude::*;
use crate::text::{
    free_of, lemma_split_at_separator, lemma_split_single, lemma_split_two, split, split_spec,
    string_from_chars, trim,
    trim_spec, Separator,
};
use super::{
    package_option_view, CommandLine, ListError, ManagerKind, Package, PackageManager, PackageView,
};

verus! {

/// The Flatpak package manager.
pub struct Flatpak;

/// A line of `flatpak list --app --columns=name,version,application` shows
/// a package when it has at least three tab-separated columns: the name, the
/// version and the application id, each trimmed.
pub open spec fn flatpak_line_spec(line: Seq<char>) -> Option<PackageView> {
    let cols = split_spec(line, Separator::Char('\t'));
    if cols.len() >= 3 {
        Some(
            PackageView {
                name: trim_spec(cols[0]),
                version: trim_spec(cols[1]),
                id: trim_spec(cols[2]),
            },
        )
    } else {
        None
    }
}

/// The package that a line of the Flatpak listing shows, if it shows one.
pub fn flatpak_line(line: &Vec<char>) -> (r: Option<Package>)
    ensures
        package_option_view(r) == flatpak_line_spec(line@),
{
    let cols = split(line, Separator::Char('\t'));
    if cols.len() >= 3 {
        let name = trim(&cols[0]);
        let version = trim(&cols[1]);
        let id = trim(&cols[2]);
        Some(
            Package {
                name: string_from_chars(&name),
                version: string_from_chars(&version),
                id: string_from_chars(&id),
            },
        )
    } else {
        None
    }
}

/// A line holding a name, a version and an application id with a tab
/// between each two of them reads back as that package, when none of the
/// three holds a tab or starts or ends with whitespace.
pub proof fn law_flatpak_line_reads_back(name: Seq<char>, version: Seq<char>, id: Seq<char>)
    requires
        free_of(name, '\t'),
        free_of(version, '\t'),
        free_of(id, '\t'),
        trim_spec(name) == name,
        trim_spec(version) == version,
        trim_spec(id) == id,
    ensures
        flatpak_line_spec(name + seq!['\t'] + version + seq!['\t'] + id) == Some(
            PackageView { name, version, id },
        ),
{
    let tab = Separator::Char('\t');
    let nv = name + seq!['\t'] + version;
    lemma_split_at_separator(nv, '\t', id, tab);
    lemma_split_two(name, '\t', version);
    lemma_split_single(id, tab);
    let cols = split_spec(nv + seq!['\t'] + id, tab);
    assert(cols =~= seq![name, version, id]);
}

impl PackageManager for Flatpak {
    open spec fn kind(&self) -> ManagerKind {
        ManagerKind::Flatpak
    }

    fn name(&self) -> (r: &'static str) {
        ManagerKind::Flatpak.display_name()
    }

    fn list_command(&self) -> (r: CommandLine) {
        ManagerKind::Flatpak.listing_command()
    }

    fn list_packages(&self, output: Vec<u8>) -> (r: Result<Vec<Package>, ListError>) {
        ManagerKind::Flatpak.parse_output(output)
    }

    fn build_remove_command(&self, packages: &[String]) -> (r: CommandLine) {
        ManagerKind::Flatpak.removal_command(packages)
    }
}

} // verus!
