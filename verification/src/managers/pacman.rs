//! pacman, the package manager of Arch Linux.
use vstd::prelude::*;
use crate::text::{
    free_of_whitespace, lemma_split_at_separator, lemma_split_single, split_spec,
    split_whitespace, split_whitespace_spec, string_from_chars, Separator,
};
use crate::text::{free_of, spec_is_whitespace, strip_cr, text_of_lines};
use super::{
    law_listing_one_package_per_line, law_listing_read_by_lines, line_package_spec, parse_spec,
    package_option_view, CommandLine, ListError, ManagerKind, Package, PackageManager, PackageView,
};

verus! {

/// The pacman package manager.
pub struct Pacman;

/// A line of `pacman -Q` shows a package when it has exactly two words: the
/// name, which also identifies the package, and the version.
pub open spec fn pacman_line_spec(line: Seq<char>) -> Option<PackageView> {
    let words = split_whitespace_spec(line);
    if words.len() == 2 {
        Some(PackageView { name: words[0], version: words[1], id: words[0] })
    } else {
        None
    }
}

/// The package that a line of `pacman -Q` shows, if it shows one.
pub fn pacman_line(line: &Vec<char>) -> (r: Option<Package>)
    ensures
        package_option_view(r) == pacman_line_spec(line@),
{
    let words = split_whitespace(line);
    if words.len() == 2 {
        Some(
            Package {
                name: string_from_chars(&words[0]),
                version: string_from_chars(&words[1]),
                id: string_from_chars(&words[0]),
            },
        )
    } else {
        None
    }
}

/// A line holding a name and a version with a space between them reads back
/// as that package, identified by its name, when both are non-empty and
/// hold no whitespace.
pub proof fn law_pacman_line_reads_back(name: Seq<char>, version: Seq<char>)
    requires
        name.len() > 0,
        version.len() > 0,
        free_of_whitespace(name),
        free_of_whitespace(version),
    ensures
        pacman_line_spec(name + seq![' '] + version) == Some(
            PackageView { name, version, id: name },
        ),
{
    let ws = Separator::Whitespace;
    lemma_split_at_separator(name, ' ', version, ws);
    lemma_split_single(name, ws);
    lemma_split_single(version, ws);
    let pieces = split_spec(name + seq![' '] + version, ws);
    assert(pieces =~= seq![name, version]);
    let pred = |p: Seq<char>| p.len() > 0;
    assert(pieces.filter(pred) =~= seq![name, version]) by {
        reveal_with_fuel(Seq::filter, 3);
        assert(pieces.drop_last() =~= seq![name]);
        assert(pieces.drop_last().drop_last() =~= Seq::<Seq<char>>::empty());
    }
}

/// A `pacman -Q` listing of name-version lines, each ended by a line feed,
/// reads back as exactly those packages, in order, each identified by its
/// name.
pub proof fn law_pacman_listing_reads_back(names: Seq<Seq<char>>, versions: Seq<Seq<char>>)
    requires
        names.len() == versions.len(),
        forall|k: int| 0 <= k < names.len() ==> (#[trigger] names[k]).len() > 0,
        forall|k: int| 0 <= k < names.len() ==> free_of_whitespace(#[trigger] names[k]),
        forall|k: int| 0 <= k < names.len() ==> (#[trigger] versions[k]).len() > 0,
        forall|k: int| 0 <= k < names.len() ==> free_of_whitespace(#[trigger] versions[k]),
    ensures
        ({
            let text = text_of_lines(
                Seq::new(names.len(), |k: int| names[k] + seq![' '] + versions[k]),
            );
            let got = parse_spec(ManagerKind::Pacman, text);
            &&& got.len() == names.len()
            &&& forall|k: int|
                0 <= k < names.len() ==> #[trigger] got[k] == PackageView {
                    name: names[k],
                    version: versions[k],
                    id: names[k],
                }
        }),
{
    let ls = Seq::new(names.len(), |k: int| names[k] + seq![' '] + versions[k]);
    assert forall|k: int| 0 <= k < ls.len() implies free_of(#[trigger] ls[k], '\n') && strip_cr(
        ls[k],
    ) == ls[k] && line_package_spec(ManagerKind::Pacman, ls[k]) == Some(
        PackageView { name: names[k], version: versions[k], id: names[k] },
    ) by {
        let n = names[k];
        let v = versions[k];
        assert(free_of_whitespace(n));
        assert(free_of_whitespace(v));
        law_pacman_line_reads_back(n, v);
        assert forall|j: int| 0 <= j < ls[k].len() implies #[trigger] ls[k][j] != '\n' by {
            if j < n.len() {
                assert(ls[k][j] == n[j]);
                assert(!spec_is_whitespace(n[j]));
            } else if j > n.len() {
                assert(ls[k][j] == v[j - n.len() - 1]);
                assert(!spec_is_whitespace(v[j - n.len() - 1]));
            }
        }
        assert(ls[k].last() == v[v.len() - 1]);
        assert(!spec_is_whitespace(v[v.len() - 1]));
    }
    law_listing_read_by_lines(ManagerKind::Pacman, ls);
    assert forall|k: int| 0 <= k < ls.len() implies (#[trigger] line_package_spec(
        ManagerKind::Pacman,
        ls[k],
    )) is Some by {}
    law_listing_one_package_per_line(ManagerKind::Pacman, ls);
}

impl PackageManager for Pacman {
    open spec fn kind(&self) -> ManagerKind {
        ManagerKind::Pacman
    }

    fn name(&self) -> (r: &'static str) {
        ManagerKind::Pacman.display_name()
    }

    fn list_command(&self) -> (r: CommandLine) {
        ManagerKind::Pacman.listing_command()
    }

    fn list_packages(&self, output: Vec<u8>) -> (r: Result<Vec<Package>, ListError>) {
        ManagerKind::Pacman.parse_output(output)
    }

    fn build_remove_command(&self, packages: &[String]) -> (r: CommandLine) {
        ManagerKind::Pacman.removal_command(packages)
    }
}

} // verus!
