use sunshine_control_panel::commands::{
    copy_edid_command, elevated_command, elevated_copy_command, elevated_plain_command,
    escape_quotes, is_browser_url, make_directory_command, remove_edid_command,
    restart_as_admin_command, restart_driver_command, restart_service_command,
    shell_copy_parameters, stop_other_processes_command, uninstall_driver_command,
};

fn s(bytes: Vec<u8>) -> String {
    String::from_utf8(bytes).expect("commands are text")
}

#[test]
fn single_quotes_are_doubled() {
    assert_eq!(s(escape_quotes(b"it's")), "it''s");
    assert_eq!(s(escape_quotes(b"''")), "''''");
    assert_eq!(s(escape_quotes(b"plain")), "plain");
    assert_eq!(s(escape_quotes(b"")), "");
    for text in ["a'b'c", "'", "C:\\Users\\O'Neil\\x.exe"] {
        assert_eq!(s(escape_quotes(text.as_bytes())), text.replace("'", "''"));
    }
}

#[test]
fn commands_run_with_raised_rights() {
    assert_eq!(
        s(elevated_command(b"echo 'x'")),
        "Start-Process powershell -ArgumentList '-NoProfile', '-Command', 'echo ''x''' -Verb RunAs -WindowStyle Hidden -Wait"
    );
    assert_eq!(
        s(elevated_plain_command(b"echo 'x'")),
        "Start-Process powershell -ArgumentList '-Command', 'echo 'x'' -Verb RunAs -WindowStyle Hidden -Wait"
    );
    let inner = format!("Copy-Item -Path '{}' -Destination '{}' -Force", "C:\\t.xml", "C:\\v\\s.xml");
    let expected = format!(
        r#"Start-Process powershell -ArgumentList '-NoProfile', '-Command', '{}' -Verb RunAs -WindowStyle Hidden -Wait"#,
        inner.replace("'", "''")
    );
    assert_eq!(s(elevated_copy_command(b"C:\\t.xml", b"C:\\v\\s.xml")), expected);
    assert_eq!(
        s(shell_copy_parameters(b"C:\\a b.xml", b"D:\\c.xml")),
        format!(r#"/C copy "{}" "{}" /Y"#, "C:\\a b.xml", "D:\\c.xml")
    );
}

#[test]
fn edid_file_commands() {
    assert_eq!(
        s(make_directory_command(b"C:\\VirtualDisplayDriver")),
        format!(
            r#"Start-Process powershell -ArgumentList '-Command', 'New-Item -ItemType Directory -Force -Path \"{}\"' -Verb RunAs -WindowStyle Hidden -Wait"#,
            "C:\\VirtualDisplayDriver"
        )
    );
    assert_eq!(
        s(copy_edid_command(b"C:\\t.bin", b"C:\\v\\user_edid.bin")),
        format!(
            r#"Start-Process powershell -ArgumentList '-Command', 'Copy-Item -Path \"{}\" -Destination \"{}\" -Force' -Verb RunAs -WindowStyle Hidden -Wait"#,
            "C:\\t.bin", "C:\\v\\user_edid.bin"
        )
    );
    assert_eq!(
        s(remove_edid_command(b"C:\\v\\user_edid.bin")),
        format!(
            r#"Start-Process powershell -ArgumentList '-Command', 'Remove-Item -Path \"{}\" -Force' -Verb RunAs -WindowStyle Hidden -Wait"#,
            "C:\\v\\user_edid.bin"
        )
    );
    let command = format!(
        r#"'{}' --remove-device-node --hardware-id ROOT\iddsampledriver --class-guid 4d36e968-e325-11ce-bfc1-08002be10318"#,
        "C:\\S\\tools\\vdd\\nefconw.exe"
    );
    assert_eq!(
        s(uninstall_driver_command(b"C:\\S\\tools\\vdd\\nefconw.exe")),
        format!(
            r#"Start-Process powershell -ArgumentList '-Command', '{}' -Verb RunAs -WindowStyle Hidden -Wait"#,
            command
        )
    );
}

#[test]
fn restart_commands() {
    assert_eq!(
        s(restart_driver_command(b"C:\\S\\tools\\restart64.exe")),
        format!(r#"Start-Process '{}' -Verb RunAs -WindowStyle Hidden"#, "C:\\S\\tools\\restart64.exe")
    );
    let command = format!(
        "net stop sunshineservice; taskkill /IM sunshine.exe /F; cd '{}'; .\\sunshine.exe",
        "C:\\Program Files\\Sunshine"
    );
    assert_eq!(
        s(restart_service_command(b"C:\\Program Files\\Sunshine")),
        format!(
            "Start-Process powershell -ArgumentList '-NoProfile', '-Command', '{}' -Verb RunAs -WindowStyle Hidden -Wait",
            command.replace("'", "''")
        )
    );
    assert_eq!(
        s(restart_as_admin_command(b"C:\\O'Neil\\gui.exe")),
        "Start-Sleep -Milliseconds 500; Start-Process -FilePath 'C:\\O''Neil\\gui.exe' -Verb RunAs"
    );
    assert_eq!(
        s(stop_other_processes_command(4242)),
        format!(
            "Get-Process -Name '*sunshine*' -ErrorAction SilentlyContinue | Where-Object {{ $_.Id -ne {} }} | Stop-Process -Force",
            4242
        )
    );
    assert_eq!(
        s(stop_other_processes_command(0)),
        "Get-Process -Name '*sunshine*' -ErrorAction SilentlyContinue | Where-Object { $_.Id -ne 0 } | Stop-Process -Force"
    );
}

#[test]
fn only_http_urls_go_to_the_browser() {
    assert!(is_browser_url(b"http://a"));
    assert!(is_browser_url(b"https://a"));
    assert!(is_browser_url(b"httpx"));
    assert!(!is_browser_url(b"HTTP://a"));
    assert!(!is_browser_url(b"file:///etc/passwd"));
    assert!(!is_browser_url(b"htt"));
    assert!(!is_browser_url(b""));
}
