use audio_config_manager::versions::dotted_run;

#[test]
fn dotted_run_detects_semver_only() {
    // Violation attendue : un sémver en dur = 3 composantes.
    let s = "Version 1.0.0 ici";
    let start = s.find('1').unwrap();
    let (end, n) = dotted_run(s, start);
    assert_eq!((&s[start..end], n), ("1.0.0", 3));

    // ID de périphérique = 4 composantes → ignoré à juste titre.
    let s = "{0.0.0.00000000}.{abc}";
    let (_, n) = dotted_run(s, s.find('0').unwrap());
    assert_eq!(n, 4);

    // Décimale isolée ou année sans points → jamais confondue.
    let s = "marge 0.5 et 2026";
    let start = s.find('0').unwrap();
    let (_, n) = dotted_run(s, start);
    assert_ne!(n, 3);
}

#[test]
fn dotted_run_leaves_a_final_dot_out() {
    assert_eq!(dotted_run("1.0.", 0), (3, 2));
    assert_eq!(dotted_run("é 12", 3), (5, 1));
    assert_eq!(dotted_run("abc", 1), (1, 0));
    assert_eq!(dotted_run("", 9), (9, 0));
}
