//! The command lines that are handed to PowerShell and to the command
//! interpreter. A path that goes between single quotes has its own single
//! quotes doubled, where the command says so.

use crate::text::{append, copy_of, decimal, push_decimal, replace_all, replaced, starts_with};
use vstd::prelude::*;
use vstd::string::StringSliceAdditionalSpecFns;

verus! {

/// A text with every single quote doubled.
pub open spec fn quote_escaped(text: Seq<u8>) -> Seq<u8> {
    replace_all(text, "'".spec_bytes(), "''".spec_bytes())
}

pub fn escape_quotes(text: &[u8]) -> (escaped: Vec<u8>)
    ensures
        escaped@ == quote_escaped(text@),
{
    replaced(text, "'".as_bytes(), "''".as_bytes())
}

/// The script that runs `command` in a PowerShell with raised rights, hidden, and waits for it.
pub open spec fn elevated(command: Seq<u8>) -> Seq<u8> {
    "Start-Process powershell -ArgumentList '-NoProfile', '-Command', '".spec_bytes()
        + quote_escaped(command) + "' -Verb RunAs -WindowStyle Hidden -Wait".spec_bytes()
}

pub fn elevated_command(command: &[u8]) -> (script: Vec<u8>)
    ensures
        script@ == elevated(command@),
{
    let mut script = copy_of(
        "Start-Process powershell -ArgumentList '-NoProfile', '-Command', '".as_bytes(),
    );
    let escaped = escape_quotes(command);
    append(&mut script, escaped.as_slice());
    append(&mut script, "' -Verb RunAs -WindowStyle Hidden -Wait".as_bytes());
    script
}

/// The script that runs `command`, given as it stands between single
/// quotes, in a PowerShell with raised rights, hidden, and waits for it.
pub open spec fn elevated_plain(command: Seq<u8>) -> Seq<u8> {
    "Start-Process powershell -ArgumentList '-Command', '".spec_bytes() + command
        + "' -Verb RunAs -WindowStyle Hidden -Wait".spec_bytes()
}

pub fn elevated_plain_command(command: &[u8]) -> (script: Vec<u8>)
    ensures
        script@ == elevated_plain(command@),
{
    let mut script = copy_of("Start-Process powershell -ArgumentList '-Command', '".as_bytes());
    append(&mut script, command);
    append(&mut script, "' -Verb RunAs -WindowStyle Hidden -Wait".as_bytes());
    script
}

/// The command that copies a file over another.
pub open spec fn copy_item(source: Seq<u8>, destination: Seq<u8>) -> Seq<u8> {
    "Copy-Item -Path '".spec_bytes() + source + "' -Destination '".spec_bytes() + destination
        + "' -Force".spec_bytes()
}

/// The script that copies a settings file into place with raised rights.
pub fn elevated_copy_command(source: &[u8], destination: &[u8]) -> (script: Vec<u8>)
    ensures
        script@ == elevated(copy_item(source@, destination@)),
{
    let mut inner = copy_of("Copy-Item -Path '".as_bytes());
    append(&mut inner, source);
    append(&mut inner, "' -Destination '".as_bytes());
    append(&mut inner, destination);
    append(&mut inner, "' -Force".as_bytes());
    elevated_command(inner.as_slice())
}

/// The arguments with which the command interpreter copies a file over another.
pub fn shell_copy_parameters(source: &[u8], destination: &[u8]) -> (parameters: Vec<u8>)
    ensures
        parameters@ == "/C copy \"".spec_bytes() + source@ + "\" \"".spec_bytes() + destination@
            + "\" /Y".spec_bytes(),
{
    let mut parameters = copy_of("/C copy \"".as_bytes());
    append(&mut parameters, source);
    append(&mut parameters, "\" \"".as_bytes());
    append(&mut parameters, destination);
    append(&mut parameters, "\" /Y".as_bytes());
    parameters
}

/// The script that makes a directory with raised rights.
pub fn make_directory_command(path: &[u8]) -> (script: Vec<u8>)
    ensures
        script@ == elevated_plain(
            "New-Item -ItemType Directory -Force -Path \\\"".spec_bytes() + path@
                + "\\\"".spec_bytes(),
        ),
{
    let mut inner = copy_of("New-Item -ItemType Directory -Force -Path \\\"".as_bytes());
    append(&mut inner, path);
    append(&mut inner, "\\\"".as_bytes());
    elevated_plain_command(inner.as_slice())
}

/// The script that copies the EDID file into place with raised rights.
pub fn copy_edid_command(source: &[u8], destination: &[u8]) -> (script: Vec<u8>)
    ensures
        script@ == elevated_plain(
            "Copy-Item -Path \\\"".spec_bytes() + source@
                + "\\\" -Destination \\\"".spec_bytes() + destination@
                + "\\\" -Force".spec_bytes(),
        ),
{
    let mut inner = copy_of("Copy-Item -Path \\\"".as_bytes());
    append(&mut inner, source);
    append(&mut inner, "\\\" -Destination \\\"".as_bytes());
    append(&mut inner, destination);
    append(&mut inner, "\\\" -Force".as_bytes());
    elevated_plain_command(inner.as_slice())
}

/// The script that removes the EDID file with raised rights.
pub fn remove_edid_command(path: &[u8]) -> (script: Vec<u8>)
    ensures
        script@ == elevated_plain(
            "Remove-Item -Path \\\"".spec_bytes() + path@ + "\\\" -Force".spec_bytes(),
        ),
{
    let mut inner = copy_of("Remove-Item -Path \\\"".as_bytes());
    append(&mut inner, path);
    append(&mut inner, "\\\" -Force".as_bytes());
    elevated_plain_command(inner.as_slice())
}

/// The script that removes the virtual display's device node.
pub fn uninstall_driver_command(tool: &[u8]) -> (script: Vec<u8>)
    ensures
        script@ == elevated_plain(
            seq![39u8] + tool@
                + "' --remove-device-node --hardware-id ROOT\\iddsampledriver --class-guid 4d36e968-e325-11ce-bfc1-08002be10318".spec_bytes(),
        ),
{
    let mut inner: Vec<u8> = Vec::new();
    inner.push(39);
    append(&mut inner, tool);
    append(
        &mut inner,
        "' --remove-device-node --hardware-id ROOT\\iddsampledriver --class-guid 4d36e968-e325-11ce-bfc1-08002be10318".as_bytes(),
    );
    assert(inner@ =~= seq![39u8] + tool@
        + "' --remove-device-node --hardware-id ROOT\\iddsampledriver --class-guid 4d36e968-e325-11ce-bfc1-08002be10318".spec_bytes());
    elevated_plain_command(inner.as_slice())
}

/// The script that restarts the graphics driver by the host's own tool.
pub fn restart_driver_command(tool: &[u8]) -> (script: Vec<u8>)
    ensures
        script@ == "Start-Process '".spec_bytes() + tool@
            + "' -Verb RunAs -WindowStyle Hidden".spec_bytes(),
{
    let mut script = copy_of("Start-Process '".as_bytes());
    append(&mut script, tool);
    append(&mut script, "' -Verb RunAs -WindowStyle Hidden".as_bytes());
    script
}

/// The commands that stop the host's service and start the host from its directory.
pub open spec fn restart_service(directory: Seq<u8>) -> Seq<u8> {
    "net stop sunshineservice; taskkill /IM sunshine.exe /F; cd '".spec_bytes() + directory
        + "'; .\\sunshine.exe".spec_bytes()
}

/// The script that restarts the host with raised rights.
pub fn restart_service_command(directory: &[u8]) -> (script: Vec<u8>)
    ensures
        script@ == elevated(restart_service(directory@)),
{
    let mut inner = copy_of("net stop sunshineservice; taskkill /IM sunshine.exe /F; cd '".as_bytes());
    append(&mut inner, directory);
    append(&mut inner, "'; .\\sunshine.exe".as_bytes());
    elevated_command(inner.as_slice())
}

/// The script that starts this program again with raised rights, half a second from now.
pub fn restart_as_admin_command(program: &[u8]) -> (script: Vec<u8>)
    ensures
        script@ == "Start-Sleep -Milliseconds 500; Start-Process -FilePath '".spec_bytes()
            + quote_escaped(program@) + "' -Verb RunAs".spec_bytes(),
{
    let mut script = copy_of("Start-Sleep -Milliseconds 500; Start-Process -FilePath '".as_bytes());
    let escaped = escape_quotes(program);
    append(&mut script, escaped.as_slice());
    append(&mut script, "' -Verb RunAs".as_bytes());
    script
}

/// The script that ends every process of the host but the one with the identifier `own`.
pub fn stop_other_processes_command(own: u32) -> (script: Vec<u8>)
    ensures
        script@
            == "Get-Process -Name '*sunshine*' -ErrorAction SilentlyContinue | Where-Object { $_.Id -ne ".spec_bytes()
            + decimal(own as nat) + " } | Stop-Process -Force".spec_bytes(),
{
    let mut script = copy_of(
        "Get-Process -Name '*sunshine*' -ErrorAction SilentlyContinue | Where-Object { $_.Id -ne ".as_bytes(),
    );
    push_decimal(&mut script, own as u64);
    append(&mut script, " } | Stop-Process -Force".as_bytes());
    script
}

/// Whether a URL is handed to the browser: only one that begins with `http`.
pub fn is_browser_url(url: &[u8]) -> (r: bool)
    ensures
        r == "http".spec_bytes().is_prefix_of(url@),
{
    starts_with(url, "http".as_bytes())
}

} // verus!
