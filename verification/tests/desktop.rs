use sunshine_control_panel::logs::{export_text, LogCollector, LogEntry, LogLevel};
use sunshine_control_panel::scan::{
    app_file_kind, frame_data_url, image_data_url, is_cover_used, is_icc_file,
    is_skipped_directory, is_temp_file, mime_of_lowered, process_batch_file, process_exe_file,
    process_lnk_file, process_url_file, read_image_as_data_url, used_images, AppFileKind, LnkInfo,
};
use sunshine_control_panel::shell::{
    get_command_line_url, handle_single_instance, handle_toolbar_menu_event,
    handle_window_event, navigate_to_url, open_tool_window, startup_plan, tool_window_title,
    tool_window_url, CloseAction, InstanceAction, Navigation, StartupPlan, ToolWindow,
    ToolbarAction,
};
use sunshine_control_panel::system::{cpu_model, gpu_names, memory_bytes, GpuInfo, SystemInfo, VideoController};
use sunshine_control_panel::tray::{
    cleanup_prevent_sleep, handle_tray_click, handle_tray_menu_event, tray_tooltip, PowerRequest,
    PreventSleep, TrayAction, WindowAction,
};

fn entry(message: &str, file: Option<&str>, line: Option<u32>) -> LogEntry {
    LogEntry::of_record(
        b"2024-01-02 03:04:05.678",
        LogLevel::Warn,
        message.as_bytes(),
        b"app::proxy",
        file.map(|f| f.as_bytes()),
        line,
    )
}

#[test]
fn log_entry_names_file_without_directories() {
    let e = entry("m", Some("src/proxy/server.rs"), Some(7));
    assert_eq!(e.file, Some(b"server.rs".to_vec()));
    assert_eq!(e.target, Some(b"app::proxy".to_vec()));
    assert_eq!(e.level, LogLevel::Warn);
    assert_eq!(e.line, Some(7));
    assert_eq!(entry("m", Some("C:\\src\\main.rs"), None).file, Some(b"C:\\src\\main.rs".to_vec()));
    assert_eq!(entry("m", Some("dir/"), None).file, Some(Vec::new()));
    assert_eq!(entry("m", None, Some(1)).file, None);
    for (level, name, heading) in [
        (LogLevel::Error, "error", "ERROR"),
        (LogLevel::Warn, "warn", "WARN"),
        (LogLevel::Info, "info", "INFO"),
        (LogLevel::Debug, "debug", "DEBUG"),
        (LogLevel::Trace, "trace", "TRACE"),
    ] {
        assert_eq!(level.name(), name);
        assert_eq!(level.heading(), heading);
        assert_eq!(level.name().to_uppercase(), heading);
    }
}

#[test]
fn collector_keeps_newest_entries() {
    let mut collector = LogCollector::new(2);
    assert!(collector.get_logs().is_empty());
    collector.add_log(entry("one", None, None));
    collector.add_log(entry("two", None, None));
    collector.add_log(entry("three", None, None));
    let messages: Vec<Vec<u8>> = collector.get_logs().into_iter().map(|e| e.message).collect();
    assert_eq!(messages, vec![b"two".to_vec(), b"three".to_vec()]);
    collector.clear_logs();
    assert!(collector.get_logs().is_empty());
    collector.add_log(entry("four", None, None));
    assert_eq!(collector.get_logs().len(), 1);
    let mut none = LogCollector::new(0);
    none.add_log(entry("lost", None, None));
    assert!(none.get_logs().is_empty());
}

#[test]
fn log_is_exported_as_text() {
    let logs = vec![
        entry("first", Some("a/b.rs"), Some(12)),
        entry("second", Some("c.rs"), None),
        entry("third", None, Some(3)),
    ];
    let expected = format!(
        "Sunshine Control Panel 日志导出\n导出时间: 2024-05-06 07:08:09\n日志总数: 3\n{}\n\n\
         [2024-01-02 03:04:05.678] [WARN] [b.rs:12] first\n\
         [2024-01-02 03:04:05.678] [WARN] [c.rs] second\n\
         [2024-01-02 03:04:05.678] [WARN] [unknown] third\n",
        "=".repeat(80)
    );
    assert_eq!(export_text(&logs, b"2024-05-06 07:08:09"), expected.into_bytes());
    let empty = format!(
        "Sunshine Control Panel 日志导出\n导出时间: now\n日志总数: 0\n{}\n\n",
        "=".repeat(80)
    );
    assert_eq!(export_text(&Vec::new(), b"now"), empty.into_bytes());
}

#[test]
fn files_are_told_apart_by_extension() {
    assert_eq!(app_file_kind(b"lnk"), Some(AppFileKind::Shortcut));
    assert_eq!(app_file_kind(b"EXE"), Some(AppFileKind::Executable));
    assert_eq!(app_file_kind(b"Bat"), Some(AppFileKind::Batch));
    assert_eq!(app_file_kind(b"cmd"), Some(AppFileKind::Batch));
    assert_eq!(app_file_kind(b"URL"), Some(AppFileKind::UrlFile));
    assert_eq!(app_file_kind(b"txt"), None);
    assert_eq!(app_file_kind(b""), None);
    assert_eq!(app_file_kind(b".exe"), None);
    assert!(is_skipped_directory(b".git"));
    assert!(is_skipped_directory(b"$Recycle.Bin"));
    assert!(is_skipped_directory(b"SYSTEM VOLUME INFORMATION"));
    assert!(!is_skipped_directory(b"Games"));
    assert!(!is_skipped_directory(b"$RECYCLE.BIN2"));
    assert!(!is_skipped_directory(b""));
    assert!(is_icc_file(b"sRGB.icc"));
    assert!(is_icc_file(b"a.icm"));
    assert!(!is_icc_file(b"a.ICC"));
    assert!(!is_icc_file(b"icc"));
    assert!(is_temp_file(b"temp_upload.png"));
    assert!(!is_temp_file(b"Temp_upload.png"));
}

#[test]
fn found_files_are_offered_as_applications() {
    let exe = process_exe_file(b"C:\\Games\\a b.exe", Some(b"a b"), Some(b"C:\\Games")).expect("an app");
    assert_eq!(exe.name, b"a b".to_vec());
    assert_eq!(exe.cmd, b"\"C:\\Games\\a b.exe\"".to_vec());
    assert_eq!(exe.working_dir, b"C:\\Games".to_vec());
    assert_eq!(exe.source_path, b"C:\\Games\\a b.exe".to_vec());
    assert!(process_exe_file(b"x.exe", None, Some(b"")).is_none());
    assert!(process_exe_file(b"/", Some(b"x"), None).is_none());
    let bat = process_batch_file(b"/opt/run.bat", Some(b"run"), Some(b"/opt")).expect("an app");
    assert_eq!(bat.cmd, b"cmd /c \"/opt/run.bat\"".to_vec());
    assert_eq!(bat.working_dir, b"/opt".to_vec());
    assert!(process_batch_file(b"run.bat", None, None).is_none());
    let url = process_url_file(b"D:\\g.url", Some(b"g")).expect("an app");
    assert_eq!(url.cmd, b"start \"\" \"D:\\g.url\"".to_vec());
    assert_eq!(url.working_dir, Vec::<u8>::new());
    assert_eq!(url.name, b"g".to_vec());
    assert!(process_url_file(b"D:\\g.url", None).is_none());
    let info = LnkInfo {
        name: b"Game".to_vec(),
        target_path: b"C:\\g.exe".to_vec(),
        working_dir: b"C:\\".to_vec(),
        arguments: b"-f".to_vec(),
    };
    let lnk = process_lnk_file(b"C:\\Desktop\\Game.lnk", Some(&info)).expect("an app");
    assert_eq!(lnk.name, b"Game".to_vec());
    assert_eq!(lnk.cmd, b"\"C:\\Desktop\\Game.lnk\"".to_vec());
    assert_eq!(lnk.working_dir, Vec::<u8>::new());
    assert_eq!(lnk.source_path, b"C:\\Desktop\\Game.lnk".to_vec());
    assert!(process_lnk_file(b"x.lnk", None).is_none());
}

#[test]
fn image_becomes_data_url() {
    assert_eq!(image_data_url(b"png", b"hi"), b"data:image/png;base64,aGk=".to_vec());
    assert_eq!(image_data_url(b"JPG", b"\xff\xd8\xff"), b"data:image/jpeg;base64,/9j/".to_vec());
    assert_eq!(image_data_url(b"jpeg", b""), b"data:image/jpeg;base64,".to_vec());
    assert_eq!(image_data_url(b"Gif", b"a"), b"data:image/gif;base64,YQ==".to_vec());
    assert_eq!(image_data_url(b"webp", b"abc"), b"data:image/webp;base64,YWJj".to_vec());
    assert_eq!(image_data_url(b"bmp", b"abcd"), b"data:image/png;base64,YWJjZA==".to_vec());
    assert_eq!(image_data_url(b"", b"\x00"), b"data:image/png;base64,AA==".to_vec());
    assert_eq!(read_image_as_data_url(b"png", b"hi"), Some(b"data:image/png;base64,aGk=".to_vec()));
    assert_eq!(mime_of_lowered(b"jpg"), "image/jpeg");
    assert_eq!(mime_of_lowered(b"JPG"), "image/png");
    assert_eq!(frame_data_url(b"a/b", b"QQ=="), b"data:a/b;base64,QQ==".to_vec());
}

#[test]
fn covers_in_use_are_listed_once() {
    let paths: Vec<Vec<u8>> = [
        "covers/a.png",
        "",
        "desktop",
        "b.png",
        "C:\\x\\c.png",
        "covers/a.png",
        "other/a.png",
        "dir/",
        "dir/desktop",
        "b.png",
    ]
    .iter()
    .map(|p| p.as_bytes().to_vec())
    .collect();
    let used = used_images(&paths);
    let names: Vec<String> = used.iter().map(|u| String::from_utf8_lossy(u).into_owned()).collect();
    assert_eq!(names, vec!["a.png", "covers/a.png", "b.png", "C:\\x\\c.png", "other/a.png"]);
    assert!(is_cover_used(&used, b"a.png"));
    assert!(is_cover_used(&used, b"b.png"));
    assert!(is_cover_used(&used, b"c.png"));
    assert!(is_cover_used(&used, b"C:\\x\\c.png"));
    assert!(!is_cover_used(&used, b"png"));
    assert!(!is_cover_used(&used, b"d.png"));
    assert!(!is_cover_used(&used, b"desktop"));
    assert!(!is_cover_used(&Vec::new(), b"a.png"));
    assert!(used_images(&Vec::new()).is_empty());
}

#[test]
fn machine_facts() {
    let controllers = vec![
        VideoController { name: b"Basic Display".to_vec(), adapter_ram: None },
        VideoController { name: b"RTX".to_vec(), adapter_ram: Some(8 << 30) },
        VideoController { name: b"Virtual".to_vec(), adapter_ram: Some(0) },
        VideoController { name: b"Iris".to_vec(), adapter_ram: Some(1) },
    ];
    assert_eq!(gpu_names(&controllers), vec![b"RTX".to_vec(), b"Iris".to_vec()]);
    assert!(gpu_names(&Vec::new()).is_empty());
    assert_eq!(memory_bytes(Some(16 * 1024 * 1024)), 16 * 1024 * 1024 * 1024);
    assert_eq!(memory_bytes(Some(0)), 0);
    assert_eq!(memory_bytes(None), 0);
    assert_eq!(memory_bytes(Some(u64::MAX / 1024)), u64::MAX / 1024 * 1024);
    assert_eq!(cpu_model(&vec![b"Ryzen".to_vec(), b"Other".to_vec()]), b"Ryzen".to_vec());
    assert_eq!(cpu_model(&Vec::new()), b"Unknown CPU".to_vec());
    let gpu = GpuInfo { model: b"RTX".to_vec(), vram: 1 };
    assert_eq!(gpu.vram, 1);
    let info = SystemInfo {
        arch: b"x86_64".to_vec(),
        platform: b"linux".to_vec(),
        os_version: b"Unknown".to_vec(),
        tauri_version: b"2.8.5".to_vec(),
        app_version: b"0.1.0".to_vec(),
        build_time: b"now".to_vec(),
        memory_total: None,
        cpu_model: None,
    };
    assert_eq!(info.os_version, b"Unknown".to_vec());
}

#[test]
fn tray_decisions() {
    assert_eq!(handle_tray_click(true, false, true), WindowAction::Hide);
    assert_eq!(handle_tray_click(true, true, true), WindowAction::ShowAndActivate);
    assert_eq!(handle_tray_click(true, false, false), WindowAction::ShowAndActivate);
    assert_eq!(handle_tray_click(false, false, true), WindowAction::ShowAndActivate);
    for (id, action) in [
        ("open_website", TrayAction::OpenWebsite),
        ("open_desktop", TrayAction::OpenDesktop),
        ("vdd_settings", TrayAction::VddSettings),
        ("restart_user_mode", TrayAction::RestartUserMode),
        ("show_toolbar", TrayAction::ShowToolbar),
        ("log_console", TrayAction::LogConsole),
        ("prevent_sleep", TrayAction::PreventSleep),
        ("debug_page", TrayAction::DebugPage),
        ("check_update", TrayAction::CheckUpdate),
        ("about", TrayAction::About),
        ("quit", TrayAction::Quit),
        ("Quit", TrayAction::Unknown),
        ("", TrayAction::Unknown),
    ] {
        assert_eq!(handle_tray_menu_event(id.as_bytes()), action, "{}", id);
    }
    assert_eq!(tray_tooltip(true), "Sunshine GUI (管理员)");
    assert_eq!(tray_tooltip(false), "Sunshine GUI");
}

#[test]
fn stay_awake_state_follows_granted_requests() {
    let mut state = PreventSleep::new();
    assert!(!state.enabled);
    assert_eq!(cleanup_prevent_sleep(&state), None);
    assert_eq!(state.toggle_request(), PowerRequest::StayAwake);
    state.toggle_prevent_sleep(false);
    assert!(!state.enabled);
    state.toggle_prevent_sleep(true);
    assert!(state.enabled);
    assert_eq!(state.toggle_request(), PowerRequest::AllowSleep);
    assert_eq!(cleanup_prevent_sleep(&state), Some(PowerRequest::AllowSleep));
    state.toggle_prevent_sleep(false);
    assert!(state.enabled);
    state.toggle_prevent_sleep(true);
    assert!(!state.enabled);
}

fn args(list: &[&str]) -> Vec<Vec<u8>> {
    list.iter().map(|a| a.as_bytes().to_vec()).collect()
}

#[test]
fn startup_plan_follows_the_command_line() {
    let plain = StartupPlan { desktop: false, main_window: true, pin_window: false, toolbar: false };
    assert_eq!(startup_plan(&args(&["app"])), plain);
    assert_eq!(startup_plan(&Vec::new()), plain);
    assert_eq!(startup_plan(&args(&["app", "--url=https://h:1/"])), plain);
    assert_eq!(
        startup_plan(&args(&["app", "-t"])),
        StartupPlan { desktop: false, main_window: false, pin_window: false, toolbar: true }
    );
    assert_eq!(
        startup_plan(&args(&["app", "--desktop", "--toolbar"])),
        StartupPlan { desktop: true, main_window: false, pin_window: false, toolbar: false }
    );
    assert_eq!(
        startup_plan(&args(&["app", "--url=https://h:1/pin#x", "--url=https://h/"])),
        StartupPlan { desktop: false, main_window: false, pin_window: true, toolbar: false }
    );
    assert_eq!(
        startup_plan(&args(&["app", "/pin", "--url=https://h/"])),
        plain
    );
    assert_eq!(
        startup_plan(&args(&["app", "-d", "--url=/pin"])),
        StartupPlan { desktop: true, main_window: false, pin_window: true, toolbar: false }
    );
    assert_eq!(startup_plan(&args(&["--Toolbar", "-T", "-desktop"])), plain);
}

#[test]
fn command_line_url_is_the_first_url_argument() {
    assert_eq!(get_command_line_url(&args(&["app", "--url=https://a", "--url=https://b"])), Some(b"https://a".to_vec()));
    assert_eq!(get_command_line_url(&args(&["app", "--url="])), Some(Vec::new()));
    assert_eq!(get_command_line_url(&args(&["app", "--url=--url=x"])), Some(b"--url=x".to_vec()));
    assert_eq!(get_command_line_url(&args(&["app", "-url=x", "--URL=x"])), None);
    assert_eq!(get_command_line_url(&Vec::new()), None);
}

#[test]
fn second_start_is_turned_into_an_action() {
    assert!(matches!(handle_single_instance(&args(&["app", "-t", "-d"])), InstanceAction::OpenDesktop));
    assert!(matches!(handle_single_instance(&args(&["app", "--toolbar", "--url=/pin"])), InstanceAction::ToggleToolbar));
    assert!(matches!(handle_single_instance(&args(&["app", "--url=https://h/pin"])), InstanceAction::OpenPinWindow));
    match handle_single_instance(&args(&["app", "--url=--url=https://h/apps"])) {
        InstanceAction::ActivateMain { url } => assert_eq!(url, Some(b"https://h/apps".to_vec())),
        _ => panic!("the main window is to be activated"),
    }
    match handle_single_instance(&args(&["app"])) {
        InstanceAction::ActivateMain { url } => assert_eq!(url, None),
        _ => panic!("the main window is to be activated"),
    }
}

#[test]
fn toolbar_entries_and_tool_windows() {
    for (id, action) in [
        ("main", ToolbarAction::ShowMain),
        ("toolbar_main", ToolbarAction::ShowMain),
        ("vdd", ToolbarAction::ShowVddSettings),
        ("toolbar_vdd", ToolbarAction::ShowVddSettings),
        ("toolbar_dpi", ToolbarAction::OpenDpiTool),
        ("bitrate", ToolbarAction::OpenBitrateTool),
        ("toolbar_shortcuts", ToolbarAction::OpenShortcutsTool),
        ("close", ToolbarAction::CloseToolbar),
        ("toolbar_close", ToolbarAction::CloseToolbar),
        ("toolbar_", ToolbarAction::Nothing),
        ("toolbar_toolbar_main", ToolbarAction::Nothing),
        ("", ToolbarAction::Nothing),
    ] {
        assert_eq!(handle_toolbar_menu_event(id.as_bytes()), action, "{}", id);
    }
    assert_eq!(open_tool_window(b"main"), Ok(ToolWindow::Main));
    assert_eq!(open_tool_window(b"vdd"), Ok(ToolWindow::VddSettings));
    assert_eq!(open_tool_window(b"about"), Ok(ToolWindow::About));
    assert_eq!(open_tool_window(b"dpi"), Err("未知的工具名称: dpi".as_bytes().to_vec()));
    assert_eq!(tool_window_url(b"dpi"), b"tool-window/index.html?tool=dpi".to_vec());
    assert_eq!(tool_window_title(b"bitrate"), b"ZakoToolsWindow - bitrate".to_vec());
}

#[test]
fn main_window_is_pointed_at_the_proxy() {
    let proxy = b"http://127.0.0.1:48081";
    match navigate_to_url(proxy, b"https://localhost:47990/apps?x=1#top") {
        Navigation::Script(script) => assert_eq!(
            String::from_utf8_lossy(&script),
            "(function(){ const iframe = document.querySelector('.sunshine-iframe'); if (iframe) iframe.src = 'http://127.0.0.1:48081/apps?x=1'; })();"
        ),
        _ => panic!("a script is expected"),
    }
    match navigate_to_url(proxy, b"https://localhost:47990") {
        Navigation::Script(script) => assert_eq!(
            String::from_utf8_lossy(&script),
            "(function(){ const iframe = document.querySelector('.sunshine-iframe'); if (iframe) iframe.src = 'http://127.0.0.1:48081/'; })();"
        ),
        _ => panic!("a script is expected"),
    }
    assert!(matches!(navigate_to_url(proxy, b"https://localhost:47990/pin"), Navigation::Skipped));
    assert!(matches!(navigate_to_url(proxy, b"https://localhost/a?next=/pin"), Navigation::Skipped));
    assert!(matches!(navigate_to_url(proxy, b"not a url"), Navigation::Invalid));
    assert!(matches!(navigate_to_url(proxy, b""), Navigation::Invalid));
}

#[test]
fn closing_a_window_depends_on_its_label() {
    assert_eq!(handle_window_event(b"main"), CloseAction::HideInstead);
    assert_eq!(handle_window_event(b"toolbar"), CloseAction::SavePosition);
    assert_eq!(handle_window_event(b"about"), CloseAction::Close);
    assert_eq!(handle_window_event(b"Main"), CloseAction::Close);
    assert_eq!(handle_window_event(b""), CloseAction::Close);
}
