use audio_config_manager::json::Json;
use audio_config_manager::ps::{
    ensure_script, install_audio_module, install_command, parse_json_output, run_capture,
    run_script, script_command, spawn_failure, wait_step, Captured, WaitEvent, WaitStep,
};

fn number(json: Option<&Json>) -> Option<u64> {
    match json {
        Some(Json::Number(n)) => n.as_u64(),
        _ => None,
    }
}

#[test]
fn parses_clean_json() {
    let out = "{\"ok\":true,\"message\":\"Profil sauvegardé\"}";
    let value = parse_json_output(out).unwrap();
    assert_eq!(value.get("ok").unwrap().as_bool(), Some(true));
}

#[test]
fn parses_last_json_after_cmdlet_noise() {
    // Set-AudioDevice imprime des objets périphériques avant la réponse.
    let out = "\r\n\r\nIndex : 1\r\nDefault : True\r\nType : Playback\r\n\r\n{\"ok\":true,\"applied\":2,\"missing\":[]}\r\n";
    let value = parse_json_output(out).unwrap();
    assert_eq!(number(value.get("applied")), Some(2));
}

#[test]
fn rejects_output_without_json() {
    let out = "Index : 1\r\nDefault : True\r\n";
    assert!(parse_json_output(out).is_err());
}

#[test]
fn last_of_several_answers_counts() {
    let out = "{\"applied\":1}\n{\"applied\":2}\nfin\n";
    assert_eq!(number(parse_json_output(out).unwrap().get("applied")), Some(2));
}

#[test]
fn only_objects_are_answers() {
    let value = parse_json_output("{\"ok\":true}\n42\n").unwrap();
    assert_eq!(value.get("ok").unwrap().as_bool(), Some(true));
    let value = parse_json_output("{\"ok\":true}\n[1]\ntrue\n\"fin\"\nnull\n").unwrap();
    assert_eq!(value.get("ok").unwrap().as_bool(), Some(true));
    assert_eq!(parse_json_output("42\n").unwrap_err(), "Réponse audio invalide : 42\n");
}

#[test]
fn invalid_answers_are_quoted_in_part() {
    assert_eq!(
        parse_json_output("bonjour\n").unwrap_err(),
        "Réponse audio invalide : bonjour\n"
    );
    let long = "é".repeat(300);
    assert_eq!(
        parse_json_output(&long).unwrap_err(),
        format!("Réponse audio invalide : {}", "é".repeat(200))
    );
}

fn captured(stdout: &str, stderr: &str, code: Option<i32>) -> Result<Captured, String> {
    Ok(Captured { stdout: stdout.to_string(), stderr: stderr.to_string(), code })
}

#[test]
fn failed_actions_say_why() {
    assert_eq!(
        run_script("export", &captured("{}", "  Module absent\r\n", Some(1))).unwrap_err(),
        "Module absent"
    );
    assert_eq!(
        run_script("export", &captured("{}", " \n", Some(3))).unwrap_err(),
        "L'action « export » a échoué (code 3)"
    );
    assert_eq!(
        run_script("restore", &captured("{}", "", None)).unwrap_err(),
        "L'action « restore » a échoué (code -1)"
    );
    assert_eq!(run_script("restore", &Err("x".to_string())).unwrap_err(), "x");
    assert!(run_script("restore", &captured("{\"ok\":true}", "bruit", Some(0))).is_ok());
}

#[test]
fn installation_says_why_it_failed() {
    assert_eq!(
        install_audio_module(&captured("", "", Some(5))).unwrap_err(),
        "Installation du module impossible (code 5)"
    );
    assert_eq!(
        install_audio_module(&captured("", "", None)).unwrap_err(),
        "Installation du module impossible (code -1)"
    );
    assert_eq!(
        install_audio_module(&captured("", "réseau", Some(1))).unwrap_err(),
        "Installation du module impossible : réseau"
    );
    assert_eq!(install_audio_module(&Err("y".to_string())).unwrap_err(), "y");
}

#[test]
fn script_file_has_a_byte_order_mark() {
    let written = ensure_script(None, "Write-Host 'é'").unwrap();
    assert_eq!(written, "\u{feff}Write-Host 'é'");
    assert_eq!(ensure_script(Some(&written), "Write-Host 'é'"), None);
    assert!(ensure_script(Some("Write-Host 'é'"), "Write-Host 'é'").is_some());
}

#[test]
fn commands_are_complete() {
    assert_eq!(
        script_command("s.ps1", "export", Some("p.json")),
        vec![
            "-NoProfile",
            "-ExecutionPolicy",
            "Bypass",
            "-File",
            "s.ps1",
            "-Action",
            "export",
            "-ConfigPath",
            "p.json",
        ]
    );
    assert_eq!(script_command("s.ps1", "overview", None).len(), 7);
    let install = install_command();
    assert_eq!(install.len(), 8);
    assert!(install[7].contains("Install-Module AudioDeviceCmdlets"));
}

#[test]
fn waiting_ends_on_time() {
    assert!(matches!(wait_step(WaitEvent::Running { expired: false }), WaitStep::Wait));
    match wait_step(WaitEvent::Running { expired: true }) {
        WaitStep::Stop(message) => {
            assert_eq!(message, "L'opération PowerShell a dépassé le délai.")
        }
        _ => panic!("unexpected step"),
    }
    match wait_step(WaitEvent::Failed("z".to_string())) {
        WaitStep::Fail(message) => assert_eq!(message, "Échec d'attente de PowerShell : z"),
        _ => panic!("unexpected step"),
    }
    match wait_step(WaitEvent::Ended(Some(4))) {
        WaitStep::Collect(code) => assert_eq!(code, Some(4)),
        _ => panic!("unexpected step"),
    }
}

#[test]
fn interrupted_reading_is_an_error() {
    assert_eq!(
        run_capture(None, Some(String::new()), Some(0)).unwrap_err(),
        "Lecture PowerShell interrompue"
    );
    let captured = run_capture(Some("a".to_string()), Some("b".to_string()), None).unwrap();
    assert_eq!((captured.stdout.as_str(), captured.stderr.as_str()), ("a", "b"));
    assert_eq!(spawn_failure("absent"), "PowerShell indisponible : absent");
}
