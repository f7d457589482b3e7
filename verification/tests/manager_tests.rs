use uninstaller::managers::apt::Apt;
use uninstaller::managers::flatpak::Flatpak;
use uninstaller::managers::pacman::Pacman;
use uninstaller::managers::{ListError, ManagerKind, Package, PackageManager};

fn pkg(p: &Package) -> (String, String, String) {
    (p.name.clone(), p.version.clone(), p.id.clone())
}

fn t(n: &str, v: &str, i: &str) -> (String, String, String) {
    (n.to_string(), v.to_string(), i.to_string())
}

#[test]
fn pacman_reads_two_word_lines() {
    let out = b"linux 6.9.1.arch1-1\nbad line here\n  vim   9.1  \nsolo\n".to_vec();
    let got: Vec<_> = Pacman.list_packages(out).unwrap().iter().map(pkg).collect();
    assert_eq!(got, vec![t("linux", "6.9.1.arch1-1", "linux"), t("vim", "9.1", "vim")]);
}

#[test]
fn flatpak_reads_three_columns_trimmed() {
    let out = "Firefox \t 126.0\torg.mozilla.firefox\nGIMP\t2.10\norg.gimp\nExtra\t1\tid.x\tmore\r\n".as_bytes().to_vec();
    let got: Vec<_> = Flatpak.list_packages(out).unwrap().iter().map(pkg).collect();
    assert_eq!(
        got,
        vec![t("Firefox", "126.0", "org.mozilla.firefox"), t("Extra", "1", "id.x")]
    );
}

#[test]
fn apt_reads_two_columns() {
    let out = b"bash\t5.2.15-2\ncoreutils\t9.1-1\t\nnotab\n".to_vec();
    let got: Vec<_> = Apt.list_packages(out).unwrap().iter().map(pkg).collect();
    assert_eq!(got, vec![t("bash", "5.2.15-2", "bash"), t("coreutils", "9.1-1", "coreutils")]);
}

#[test]
fn non_utf8_output_is_an_error() {
    assert!(matches!(Pacman.list_packages(vec![0x66, 0xff, 0x0a]), Err(ListError::InvalidUtf8)));
    assert!(matches!(ManagerKind::Apt.list_packages(vec![0xc3]), Err(ListError::InvalidUtf8)));
}

#[test]
fn utf8_output_is_decoded() {
    let out = "café 1.0\n".as_bytes().to_vec();
    let got: Vec<_> = Pacman.list_packages(out).unwrap().iter().map(pkg).collect();
    assert_eq!(got, vec![t("café", "1.0", "café")]);
}

#[test]
fn empty_output_lists_nothing() {
    assert!(Flatpak.list_packages(Vec::new()).unwrap().is_empty());
}

#[test]
fn names() {
    assert_eq!(Pacman.name(), "Pacman");
    assert_eq!(Flatpak.name(), "Flatpak");
    assert_eq!(Apt.name(), "APT");
    assert_eq!(ManagerKind::Flatpak.name(), "Flatpak");
}

#[test]
fn listing_commands() {
    let c = Pacman.list_command();
    assert_eq!(c.program, "pacman");
    assert_eq!(c.args, vec!["-Q"]);
    let c = Flatpak.list_command();
    assert_eq!(c.program, "flatpak");
    assert_eq!(c.args, vec!["list", "--app", "--columns=name,version,application"]);
    let c = Apt.list_command();
    assert_eq!(c.program, "dpkg-query");
    assert_eq!(c.args, vec!["-W", "-f=${Package}\t${Version}\n"]);
}

#[test]
fn removal_commands() {
    let ids = vec!["a".to_string(), "b".to_string()];
    let c = Pacman.build_remove_command(&ids);
    assert_eq!(c.program, "sudo");
    assert_eq!(c.args, vec!["pacman", "-Rns", "--noconfirm", "a", "b"]);
    let c = Flatpak.build_remove_command(&ids);
    assert_eq!(c.program, "flatpak");
    assert_eq!(c.args, vec!["uninstall", "-y", "a", "b"]);
    let c = Apt.build_remove_command(&ids);
    assert_eq!(c.program, "sudo");
    assert_eq!(c.args, vec!["apt-get", "remove", "-y", "a", "b"]);
    let c = ManagerKind::Pacman.build_remove_command(&[]);
    assert_eq!(c.args, vec!["pacman", "-Rns", "--noconfirm"]);
}

#[test]
fn listing_reads_back_lines_it_was_made_of() {
    let lines = [("zsh", "5.9-5"), ("git", "2.45.1-1")];
    let mut text = String::new();
    for (n, v) in lines {
        text.push_str(&format!("{}\t{}\n", n, v));
    }
    let got: Vec<_> = Apt.list_packages(text.into_bytes()).unwrap().iter().map(pkg).collect();
    assert_eq!(got, vec![t("zsh", "5.9-5", "zsh"), t("git", "2.45.1-1", "git")]);
    let got: Vec<_> =
        Pacman.list_packages(b"zsh 5.9-5\n".to_vec()).unwrap().iter().map(pkg).collect();
    assert_eq!(got, vec![t("zsh", "5.9-5", "zsh")]);
}
