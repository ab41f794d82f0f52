//! The decisions of the desktop shell that follow from the command line and
//! from the identifiers of menu entries.

use crate::outside::{parse_url, url_parts, UrlParts, UrlPartsView};
use crate::text::{
    append, bytes_eq, contains, contains_bytes, copy_of, option_view, starts_with,
    strip_leading, views, without_leading, QUESTION_MARK,
};
use vstd::prelude::*;
use vstd::string::StringSliceAdditionalSpecFns;

verus! {

pub open spec fn url_flag() -> Seq<u8> {
    "--url=".spec_bytes()
}

/// Whether an argument asks for the toolbar.
pub open spec fn is_toolbar_flag(arg: Seq<u8>) -> bool {
    arg == "--toolbar".spec_bytes() || arg == "-t".spec_bytes()
}

/// Whether an argument asks for the desktop view.
pub open spec fn is_desktop_flag(arg: Seq<u8>) -> bool {
    arg == "--desktop".spec_bytes() || arg == "-d".spec_bytes()
}

/// Whether one of the arguments is a toolbar flag.
pub open spec fn wants_toolbar(args: Seq<Seq<u8>>) -> bool {
    exists|i: int| 0 <= i < args.len() && is_toolbar_flag(#[trigger] args[i])
}

/// Whether one of the arguments is a desktop flag.
pub open spec fn wants_desktop(args: Seq<Seq<u8>>) -> bool {
    exists|i: int| 0 <= i < args.len() && is_desktop_flag(#[trigger] args[i])
}

/// The first argument from `from` on that begins with `--url=`.
pub open spec fn url_argument(args: Seq<Seq<u8>>, from: int) -> Option<Seq<u8>>
    decreases args.len() - from,
{
    if from < 0 || from >= args.len() {
        None
    } else if url_flag().is_prefix_of(args[from]) {
        Some(args[from])
    } else {
        url_argument(args, from + 1)
    }
}

/// Whether the URL argument speaks of PIN pairing.
pub open spec fn url_names_pin(args: Seq<Seq<u8>>) -> bool {
    match url_argument(args, 0) {
        Some(arg) => contains(arg, "/pin".spec_bytes()),
        None => false,
    }
}

/// Which windows the application opens when it starts.
#[derive(Clone, Copy, PartialEq, Eq, Structural, Debug)]
pub struct StartupPlan {
    /// Open the desktop view, and the main window hidden behind it.
    pub desktop: bool,
    /// Open the main window; updates are checked for only then.
    pub main_window: bool,
    /// Open the PIN pairing window once the application runs.
    pub pin_window: bool,
    /// Open the toolbar once the application runs.
    pub toolbar: bool,
}

/// The plan that the arguments ask for. The desktop view goes before
/// everything else; the main window is opened unless the toolbar or PIN
/// pairing is asked for; the toolbar is not opened beside the desktop view.
pub open spec fn plan_for(args: Seq<Seq<u8>>) -> StartupPlan {
    StartupPlan {
        desktop: wants_desktop(args),
        main_window: !wants_desktop(args) && !wants_toolbar(args) && !url_names_pin(args),
        pin_window: url_names_pin(args),
        toolbar: wants_toolbar(args) && !wants_desktop(args),
    }
}

fn has_toolbar_flag(args: &Vec<Vec<u8>>) -> (r: bool)
    ensures
        r == wants_toolbar(views(args@)),
{
    let mut i: usize = 0;
    while i < args.len()
        invariant
            i <= args.len(),
            forall|j: int| 0 <= j < i ==> !is_toolbar_flag(#[trigger] views(args@)[j]),
        decreases args.len() - i,
    {
        assert(views(args@)[i as int] == args@[i as int]@);
        if bytes_eq(args[i].as_slice(), "--toolbar".as_bytes()) || bytes_eq(
            args[i].as_slice(),
            "-t".as_bytes(),
        ) {
            return true;
        }
        i += 1;
    }
    false
}

fn has_desktop_flag(args: &Vec<Vec<u8>>) -> (r: bool)
    ensures
        r == wants_desktop(views(args@)),
{
    let mut i: usize = 0;
    while i < args.len()
        invariant
            i <= args.len(),
            forall|j: int| 0 <= j < i ==> !is_desktop_flag(#[trigger] views(args@)[j]),
        decreases args.len() - i,
    {
        assert(views(args@)[i as int] == args@[i as int]@);
        if bytes_eq(args[i].as_slice(), "--desktop".as_bytes()) || bytes_eq(
            args[i].as_slice(),
            "-d".as_bytes(),
        ) {
            return true;
        }
        i += 1;
    }
    false
}

/// The first argument that begins with `--url=`.
pub fn find_url_argument(args: &Vec<Vec<u8>>) -> (found: Option<&Vec<u8>>)
    ensures
        match url_argument(views(args@), 0) {
            Some(arg) => found matches Some(f) && f@ == arg,
            None => found is None,
        },
        found matches Some(f) ==> url_flag().is_prefix_of(f@),
{
    let mut i: usize = 0;
    while i < args.len()
        invariant
            i <= args.len(),
            url_argument(views(args@), 0) == url_argument(views(args@), i as int),
        decreases args.len() - i,
    {
        assert(views(args@)[i as int] == args@[i as int]@);
        if starts_with(args[i].as_slice(), "--url=".as_bytes()) {
            return Some(&args[i]);
        }
        i += 1;
    }
    None
}

/// The URL that the command line names: the first argument that begins
/// with `--url=`, without that.
pub fn get_command_line_url(args: &Vec<Vec<u8>>) -> (url: Option<Vec<u8>>)
    ensures
        option_view(url) == match url_argument(views(args@), 0) {
            Some(arg) => Some(arg.skip(url_flag().len() as int)),
            None => None,
        },
{
    match find_url_argument(args) {
        Some(arg) => {
            let flag = "--url=".as_bytes();
            let rest = vstd::slice::slice_subrange(arg.as_slice(), flag.len(), arg.len());
            assert(rest@ =~= arg@.skip(url_flag().len() as int));
            Some(copy_of(rest))
        },
        None => None,
    }
}

/// Which windows to open at startup.
pub fn startup_plan(args: &Vec<Vec<u8>>) -> (plan: StartupPlan)
    ensures
        plan == plan_for(views(args@)),
{
    let toolbar = has_toolbar_flag(args);
    let desktop = has_desktop_flag(args);
    let pin = match find_url_argument(args) {
        Some(arg) => contains_bytes(arg.as_slice(), "/pin".as_bytes()),
        None => false,
    };
    StartupPlan {
        desktop,
        main_window: !desktop && !toolbar && !pin,
        pin_window: pin,
        toolbar: toolbar && !desktop,
    }
}

/// What a running application does when it is started a second time.
pub enum InstanceAction {
    OpenDesktop,
    ToggleToolbar,
    OpenPinWindow,
    /// Bring the main window to the front, and show this URL in it if there is one.
    ActivateMain { url: Option<Vec<u8>> },
}

pub enum InstanceActionView {
    OpenDesktop,
    ToggleToolbar,
    OpenPinWindow,
    ActivateMain { url: Option<Seq<u8>> },
}

impl View for InstanceAction {
    type V = InstanceActionView;

    open spec fn view(&self) -> InstanceActionView {
        match self {
            InstanceAction::OpenDesktop => InstanceActionView::OpenDesktop,
            InstanceAction::ToggleToolbar => InstanceActionView::ToggleToolbar,
            InstanceAction::OpenPinWindow => InstanceActionView::OpenPinWindow,
            InstanceAction::ActivateMain { url } => InstanceActionView::ActivateMain {
                url: option_view(*url),
            },
        }
    }
}

/// The action that the arguments of a second start ask for: the desktop
/// view before the toolbar, the toolbar before a URL; a URL that speaks of
/// PIN pairing opens the pairing window, any other is shown in the main
/// window, without every `--url=` that it begins with.
pub open spec fn instance_action(args: Seq<Seq<u8>>) -> InstanceActionView {
    if wants_desktop(args) {
        InstanceActionView::OpenDesktop
    } else if wants_toolbar(args) {
        InstanceActionView::ToggleToolbar
    } else {
        match url_argument(args, 0) {
            Some(arg) => if contains(without_leading(arg, url_flag()), "/pin".spec_bytes()) {
                InstanceActionView::OpenPinWindow
            } else {
                InstanceActionView::ActivateMain { url: Some(without_leading(arg, url_flag())) }
            },
            None => InstanceActionView::ActivateMain { url: None },
        }
    }
}

/// Decides what to do when the application is started a second time.
pub fn handle_single_instance(args: &Vec<Vec<u8>>) -> (action: InstanceAction)
    ensures
        action@ == instance_action(views(args@)),
{
    if has_desktop_flag(args) {
        return InstanceAction::OpenDesktop;
    }
    if has_toolbar_flag(args) {
        return InstanceAction::ToggleToolbar;
    }
    match find_url_argument(args) {
        Some(arg) => {
            let url = strip_leading(arg.as_slice(), "--url=".as_bytes());
            if contains_bytes(url, "/pin".as_bytes()) {
                InstanceAction::OpenPinWindow
            } else {
                InstanceAction::ActivateMain { url: Some(copy_of(url)) }
            }
        },
        None => InstanceAction::ActivateMain { url: None },
    }
}

/// What an entry of the toolbar's menu stands for.
#[derive(Clone, Copy, PartialEq, Eq, Structural, Debug)]
pub enum ToolbarAction {
    ShowMain,
    ShowVddSettings,
    OpenDpiTool,
    OpenBitrateTool,
    OpenShortcutsTool,
    CloseToolbar,
    Nothing,
}

/// Whether an identifier is `name`, with or without `toolbar_` before it.
pub open spec fn names_entry(event_id: Seq<u8>, name: Seq<u8>) -> bool {
    event_id == name || event_id == "toolbar_".spec_bytes() + name
}

pub open spec fn toolbar_action(event_id: Seq<u8>) -> ToolbarAction {
    if names_entry(event_id, "main".spec_bytes()) {
        ToolbarAction::ShowMain
    } else if names_entry(event_id, "vdd".spec_bytes()) {
        ToolbarAction::ShowVddSettings
    } else if names_entry(event_id, "dpi".spec_bytes()) {
        ToolbarAction::OpenDpiTool
    } else if names_entry(event_id, "bitrate".spec_bytes()) {
        ToolbarAction::OpenBitrateTool
    } else if names_entry(event_id, "shortcuts".spec_bytes()) {
        ToolbarAction::OpenShortcutsTool
    } else if names_entry(event_id, "close".spec_bytes()) {
        ToolbarAction::CloseToolbar
    } else {
        ToolbarAction::Nothing
    }
}

fn is_entry(event_id: &[u8], name: &[u8]) -> (r: bool)
    ensures
        r == names_entry(event_id@, name@),
{
    let mut long = copy_of("toolbar_".as_bytes());
    append(&mut long, name);
    bytes_eq(event_id, name) || bytes_eq(event_id, long.as_slice())
}

/// Reads the action off the identifier of an entry of the toolbar's menu.
pub fn handle_toolbar_menu_event(event_id: &[u8]) -> (action: ToolbarAction)
    ensures
        action == toolbar_action(event_id@),
{
    if is_entry(event_id, "main".as_bytes()) {
        ToolbarAction::ShowMain
    } else if is_entry(event_id, "vdd".as_bytes()) {
        ToolbarAction::ShowVddSettings
    } else if is_entry(event_id, "dpi".as_bytes()) {
        ToolbarAction::OpenDpiTool
    } else if is_entry(event_id, "bitrate".as_bytes()) {
        ToolbarAction::OpenBitrateTool
    } else if is_entry(event_id, "shortcuts".as_bytes()) {
        ToolbarAction::OpenShortcutsTool
    } else if is_entry(event_id, "close".as_bytes()) {
        ToolbarAction::CloseToolbar
    } else {
        ToolbarAction::Nothing
    }
}

/// What the request for a window by name opens.
#[derive(Clone, Copy, PartialEq, Eq, Structural, Debug)]
pub enum ToolWindow {
    Main,
    VddSettings,
    About,
}

pub open spec fn tool_window(tool_name: Seq<u8>) -> Result<ToolWindow, Seq<u8>> {
    if tool_name == "main".spec_bytes() {
        Ok(ToolWindow::Main)
    } else if tool_name == "vdd".spec_bytes() {
        Ok(ToolWindow::VddSettings)
    } else if tool_name == "about".spec_bytes() {
        Ok(ToolWindow::About)
    } else {
        Err("未知的工具名称: ".spec_bytes() + tool_name)
    }
}

/// The window that a name asks for, or the words of the error for a name
/// that is not known.
pub fn open_tool_window(tool_name: &[u8]) -> (window: Result<ToolWindow, Vec<u8>>)
    ensures
        match tool_window(tool_name@) {
            Ok(expected) => window == Ok::<ToolWindow, Vec<u8>>(expected),
            Err(words) => window matches Err(w) && w@ == words,
        },
{
    if bytes_eq(tool_name, "main".as_bytes()) {
        Ok(ToolWindow::Main)
    } else if bytes_eq(tool_name, "vdd".as_bytes()) {
        Ok(ToolWindow::VddSettings)
    } else if bytes_eq(tool_name, "about".as_bytes()) {
        Ok(ToolWindow::About)
    } else {
        let mut words = copy_of("未知的工具名称: ".as_bytes());
        append(&mut words, tool_name);
        Err(words)
    }
}

/// The page that a tool's window shows.
pub fn tool_window_url(tool_type: &[u8]) -> (url: Vec<u8>)
    ensures
        url@ == "tool-window/index.html?tool=".spec_bytes() + tool_type@,
{
    let mut url = copy_of("tool-window/index.html?tool=".as_bytes());
    append(&mut url, tool_type);
    url
}

/// The title of a tool's window.
pub fn tool_window_title(tool_type: &[u8]) -> (title: Vec<u8>)
    ensures
        title@ == "ZakoToolsWindow - ".spec_bytes() + tool_type@,
{
    let mut title = copy_of("ZakoToolsWindow - ".as_bytes());
    append(&mut title, tool_type);
    title
}

/// What to do with the main window when it is asked to show a URL.
pub enum Navigation {
    /// The text is no URL: nothing is done.
    Invalid,
    /// The URL speaks of PIN pairing, which has a window of its own: nothing is done.
    Skipped,
    /// Run this script in the window.
    Script(Vec<u8>),
}

pub enum NavigationView {
    Invalid,
    Skipped,
    Script(Seq<u8>),
}

impl View for Navigation {
    type V = NavigationView;

    open spec fn view(&self) -> NavigationView {
        match self {
            Navigation::Invalid => NavigationView::Invalid,
            Navigation::Skipped => NavigationView::Skipped,
            Navigation::Script(script) => NavigationView::Script(script@),
        }
    }
}

/// Path and query of a URL, as they follow its host.
pub open spec fn path_and_query(parts: UrlPartsView) -> Seq<u8> {
    parts.path + (match parts.query {
        Some(query) => seq![QUESTION_MARK] + query,
        None => Seq::empty(),
    })
}

/// The script that points the embedded frame at a location behind the proxy.
pub open spec fn frame_script(proxy_url: Seq<u8>, location: Seq<u8>) -> Seq<u8> {
    "(function(){ const iframe = document.querySelector('.sunshine-iframe'); if (iframe) iframe.src = '".spec_bytes()
        + proxy_url + location + "'; })();".spec_bytes()
}

/// What to do for a URL with these parts.
pub open spec fn navigation_for(proxy_url: Seq<u8>, parts: Option<UrlPartsView>) -> NavigationView {
    match parts {
        None => NavigationView::Invalid,
        Some(parts) => if contains(path_and_query(parts), "/pin".spec_bytes()) {
            NavigationView::Skipped
        } else {
            NavigationView::Script(frame_script(proxy_url, path_and_query(parts)))
        },
    }
}

/// Decides what to do for a URL that has been taken apart.
pub fn navigate_to_parts(proxy_url: &[u8], parts: &Option<UrlParts>) -> (navigation: Navigation)
    ensures
        navigation@ == navigation_for(
            proxy_url@,
            match parts {
                Some(p) => Some(p@),
                None => None,
            },
        ),
{
    match parts {
        None => Navigation::Invalid,
        Some(parts) => {
            let mut location = copy_of(parts.path.as_slice());
            match &parts.query {
                Some(query) => {
                    location.push(QUESTION_MARK);
                    append(&mut location, query.as_slice());
                },
                None => {},
            }
            assert(location@ =~= path_and_query(parts@));
            if contains_bytes(location.as_slice(), "/pin".as_bytes()) {
                return Navigation::Skipped;
            }
            let mut script = copy_of(
                "(function(){ const iframe = document.querySelector('.sunshine-iframe'); if (iframe) iframe.src = '".as_bytes(),
            );
            append(&mut script, proxy_url);
            append(&mut script, location.as_slice());
            append(&mut script, "'; })();".as_bytes());
            Navigation::Script(script)
        },
    }
}

/// Decides what the main window does when it is asked to show `url`, given
/// the URL under which the proxy is reached.
pub fn navigate_to_url(proxy_url: &[u8], url: &[u8]) -> (navigation: Navigation)
    ensures
        navigation@ == navigation_for(proxy_url@, url_parts(url@)),
{
    let parts = parse_url(url);
    navigate_to_parts(proxy_url, &parts)
}

/// What happens to a window that the user asks to close.
#[derive(Clone, Copy, PartialEq, Eq, Structural, Debug)]
pub enum CloseAction {
    /// The window is hidden and stays open.
    HideInstead,
    /// The window's position is saved, and it closes.
    SavePosition,
    /// The window closes.
    Close,
}

/// The main window is hidden, the toolbar remembers where it was.
pub fn handle_window_event(label: &[u8]) -> (action: CloseAction)
    ensures
        action == if label@ == "main".spec_bytes() {
            CloseAction::HideInstead
        } else if label@ == "toolbar".spec_bytes() {
            CloseAction::SavePosition
        } else {
            CloseAction::Close
        },
{
    if bytes_eq(label, "main".as_bytes()) {
        CloseAction::HideInstead
    } else if bytes_eq(label, "toolbar".as_bytes()) {
        CloseAction::SavePosition
    } else {
        CloseAction::Close
    }
}

} // verus!
