use xero_toolkit::scan::{
    chars_of, contains_chars, flatpak_listed, line_bounds, mentions_xerolinux,
    package_names_matching, parse_distribution_info,
};

#[test]
fn substring_search() {
    let hay = chars_of("hello world");
    assert!(contains_chars(&hay, &chars_of("lo w")));
    assert!(contains_chars(&hay, &chars_of("")));
    assert!(contains_chars(&hay, &chars_of("hello world")));
    assert!(!contains_chars(&hay, &chars_of("worlds")));
    assert!(!contains_chars(&chars_of(""), &chars_of("a")));
}

#[test]
fn lines_follow_str_lines() {
    for text in ["", "a", "a\n", "a\r\nb", "\n\nx\r", "one\ntwo\r\n\nthree"] {
        let chars: Vec<char> = text.chars().collect();
        let got: Vec<String> = line_bounds(&chars)
            .iter()
            .map(|&(a, b)| chars[a..b].iter().collect())
            .collect();
        let want: Vec<String> = text.lines().map(|l| l.to_string()).collect();
        assert_eq!(got, want, "text {:?}", text);
    }
}

#[test]
fn xerolinux_is_recognised() {
    assert!(mentions_xerolinux("NAME=\"XeroLinux\"\nID=xerolinux\n"));
    assert!(mentions_xerolinux("ID=xerolinux"));
    assert!(!mentions_xerolinux("NAME=\"Arch Linux\"\nID=arch\n"));
}

#[test]
fn flatpak_list_is_searched() {
    let out = "GIMP\torg.gimp.GIMP\t2.10\tstable\tsystem\nSteam\tcom.valvesoftware.Steam\t1.0\tstable\tsystem\n";
    assert!(flatpak_listed(out, "org.gimp.GIMP"));
    assert!(!flatpak_listed(out, "org.mozilla.firefox"));
}

#[test]
fn package_names_take_first_word_of_matching_lines() {
    let out = "linux 6.9.1-arch1-1\nlinux-firmware 20240510-1\nnvidia-utils 550.78-1\n  spaced  1.0\n";
    assert_eq!(
        package_names_matching(out, "linux"),
        vec!["linux".to_string(), "linux-firmware".to_string()]
    );
    assert_eq!(package_names_matching(out, "nvidia"), vec!["nvidia-utils".to_string()]);
    assert_eq!(package_names_matching(out, "spaced"), vec!["spaced".to_string()]);
    assert!(package_names_matching(out, "zsh").is_empty());
    assert_eq!(package_names_matching("a\u{3000}b 1\n", "b"), vec!["a".to_string()]);
}

#[test]
fn distribution_info_from_os_release() {
    let text = "NAME=\"XeroLinux\"\nPRETTY_NAME=\"XeroLinux\"\nVERSION=\"Rolling\"\nID=xerolinux\n";
    assert_eq!(
        parse_distribution_info(text),
        Some(("XeroLinux".to_string(), "Rolling".to_string()))
    );
    assert_eq!(parse_distribution_info("NAME=Arch\n"), None);
    assert_eq!(
        parse_distribution_info("VERSION=1\nNAME=\"\"\"A\"\nVERSION=\"2\""),
        Some(("A".to_string(), "2".to_string()))
    );
}
