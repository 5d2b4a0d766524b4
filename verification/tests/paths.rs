use iqviewer::dirs::{
    extension_of, is_format_extension, is_iq_file, is_iq_file_name, read_dir_iq, FORMATS,
};

fn strings(texts: &[&str]) -> Vec<String> {
    texts.iter().map(|t| t.to_string()).collect()
}

#[test]
fn every_listed_format_is_recognised() {
    assert_eq!(FORMATS.len(), 20);
    for format in FORMATS {
        assert!(is_format_extension(format), "{}", format);
        assert!(is_iq_file(&format!("/data/file.{}", format)), "{}", format);
        assert!(is_iq_file_name(&format!("file.{}", format)), "{}", format);
    }
    assert_eq!(
        FORMATS.to_vec(),
        vec![
            "cu4", "cs4", "cu8", "data", "complex16u", "cs8", "complex16s", "cu12", "cs12",
            "cu16", "cs16", "cu32", "cs32", "cu64", "cs64", "cf32", "cfile", "complex", "cf64",
            "sigmf"
        ]
    );
}

#[test]
fn extensions_are_compared_exactly() {
    assert!(!is_format_extension("CU8"));
    assert!(!is_format_extension("Cu8"));
    assert!(!is_format_extension("cu"));
    assert!(!is_format_extension("cu88"));
    assert!(!is_format_extension(" cu8"));
    assert!(!is_format_extension(""));
    assert!(!is_format_extension("txt"));
    assert!(!is_format_extension("complex16"));
    assert!(!is_format_extension("sigmf-data"));
}

#[test]
fn extension_is_what_follows_the_last_dot() {
    assert_eq!(extension_of("a.cu8"), Some("cu8".to_string()));
    assert_eq!(extension_of("a.b.cu8"), Some("cu8".to_string()));
    assert_eq!(extension_of("a."), Some("".to_string()));
    assert_eq!(extension_of(".a.b"), Some("b".to_string()));
    assert_eq!(extension_of("ä.ö"), Some("ö".to_string()));
    assert_eq!(extension_of("a"), None);
    assert_eq!(extension_of(""), None);
    assert_eq!(extension_of(".cu8"), None);
    assert_eq!(extension_of("."), None);
}

#[test]
fn is_iq_file_looks_at_the_final_component() {
    assert!(is_iq_file("a.cu8"));
    assert!(is_iq_file("/data/a.b.cf32"));
    assert!(is_iq_file("relative/dir/g001.sigmf"));
    assert!(is_iq_file("/data/dir.cu8/"));
    assert!(!is_iq_file("/data.cu8/readme"));
    assert!(!is_iq_file("/data/a.CU8"));
    assert!(!is_iq_file("/data/a.cu8.txt"));
    assert!(!is_iq_file("/data/.cu8"));
    assert!(!is_iq_file("/data/cu8"));
    assert!(!is_iq_file("/data/a.cu8/.."));
    assert!(!is_iq_file("/"));
    assert!(!is_iq_file(""));
}

#[test]
fn read_dir_iq_picks_sample_files_and_sorts_them() {
    let listing = strings(&[
        "/d/z.cu8",
        "/d/readme.txt",
        "/d/b.cf32",
        "/d/a.sigmf",
        "/d/B.cu8",
        "/d/sub",
        "/d/a.CU8",
        "/d/a10.cu8",
        "/d/a2.cu8",
    ]);
    assert_eq!(
        read_dir_iq(listing),
        strings(&["/d/B.cu8", "/d/a.sigmf", "/d/a10.cu8", "/d/a2.cu8", "/d/b.cf32", "/d/z.cu8"])
    );
}

#[test]
fn read_dir_iq_of_nothing_is_nothing() {
    assert_eq!(read_dir_iq(Vec::new()), Vec::<String>::new());
    assert_eq!(read_dir_iq(strings(&["/d/a.txt", "/d/b"])), Vec::<String>::new());
}

#[test]
fn read_dir_iq_keeps_every_sample_file() {
    let listing = strings(&["/d/b.cu8", "/d/a.cu8", "/d/b.cu8"]);
    assert_eq!(read_dir_iq(listing), strings(&["/d/a.cu8", "/d/b.cu8", "/d/b.cu8"]));
}
