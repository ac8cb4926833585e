//! The Windows Explorer "Recast" context menu, as the registry edits that
//! install and remove it.
use vstd::prelude::*;
use crate::engines::Platform;
use crate::text::{owned, push_str};

verus! {

/// Why the context menu could not be changed.
#[derive(Debug, Clone)]
pub enum ShellIntegrationError {
    UnsupportedPlatform,
    Registry(String),
}

/// The message of the error, as its `Display` text reads.
pub open spec fn spec_shell_message(e: ShellIntegrationError) -> Seq<char> {
    match e {
        ShellIntegrationError::UnsupportedPlatform => "windows integration is only supported on Windows"@,
        ShellIntegrationError::Registry(m) => "failed to update the Windows context menu: "@ + m@,
    }
}

impl ShellIntegrationError {
    /// The message of the error, as [`spec_shell_message`] states.
    pub fn message(&self) -> (res: String)
        ensures
            res@ == spec_shell_message(*self),
    {
        match self {
            ShellIntegrationError::UnsupportedPlatform => owned("windows integration is only supported on Windows"),
            ShellIntegrationError::Registry(m) => {
                let mut s = owned("failed to update the Windows context menu: ");
                push_str(&mut s, m.as_str());
                s
            },
        }
    }
}

/// One edit of the current user's registry hive.
#[derive(Debug, Clone)]
pub enum RegistryChange {
    /// Create `key` (and its parents) if needed and set its value `name`
    /// (the empty name is the key's default value).
    SetValue { key: String, name: String, value: String },
    /// Delete `key` with everything below it; a missing key is no error.
    DeleteTree { key: String },
}

/// The value of a [`RegistryChange`].
pub enum RegistryChangeView {
    SetValue { key: Seq<char>, name: Seq<char>, value: Seq<char> },
    DeleteTree { key: Seq<char> },
}

impl View for RegistryChange {
    type V = RegistryChangeView;

    open spec fn view(&self) -> RegistryChangeView {
        match self {
            RegistryChange::SetValue { key, name, value } => RegistryChangeView::SetValue { key: key@, name: name@, value: value@ },
            RegistryChange::DeleteTree { key } => RegistryChangeView::DeleteTree { key: key@ },
        }
    }
}

/// The values of a sequence of edits.
pub open spec fn changes_view(v: Seq<RegistryChange>) -> Seq<RegistryChangeView> {
    Seq::new(v.len(), |i: int| v[i]@)
}

/// The key of the menu.
pub open spec fn menu_key() -> Seq<char> {
    "Software\\Classes\\*\\shell\\Recast"@
}

/// The command line a menu entry runs: open the file, or convert it to a
/// format at once.
pub open spec fn spec_menu_command(exe: Seq<char>, target_format: Option<Seq<char>>) -> Seq<char> {
    match target_format {
        Some(f) => "\""@ + exe + "\" --quick-convert "@ + f + " \"%1\""@,
        None => "\""@ + exe + "\" --open \"%1\""@,
    }
}

/// The edits that make one menu entry: its label, and its command.
pub open spec fn entry_changes(exe: Seq<char>, key_name: Seq<char>, label: Seq<char>, target_format: Option<Seq<char>>) -> Seq<RegistryChangeView> {
    let item = menu_key() + "\\shell\\"@ + key_name;
    seq![
        RegistryChangeView::SetValue { key: item, name: "MUIVerb"@, value: label },
        RegistryChangeView::SetValue { key: item + "\\command"@, name: ""@, value: spec_menu_command(exe, target_format) },
    ]
}

/// The edits that install the menu: the "Recast" submenu with the
/// executable's icon, then an entry to open the file and entries to convert
/// it to JPG, PNG, WebP, MP3 and MP4, in that order.
pub open spec fn spec_install_changes(exe: Seq<char>) -> Seq<RegistryChangeView> {
    seq![
        RegistryChangeView::SetValue { key: menu_key(), name: "MUIVerb"@, value: "Recast"@ },
        RegistryChangeView::SetValue { key: menu_key(), name: "Icon"@, value: exe },
        RegistryChangeView::SetValue { key: menu_key(), name: "SubCommands"@, value: ""@ },
    ] + entry_changes(exe, "00-open"@, "Open in Recast"@, None)
        + entry_changes(exe, "10-jpg"@, "Convert to JPG"@, Some("jpg"@))
        + entry_changes(exe, "20-png"@, "Convert to PNG"@, Some("png"@))
        + entry_changes(exe, "30-webp"@, "Convert to WebP"@, Some("webp"@))
        + entry_changes(exe, "40-mp3"@, "Convert to MP3"@, Some("mp3"@))
        + entry_changes(exe, "50-mp4"@, "Convert to MP4"@, Some("mp4"@))
}

/// The command line a menu entry runs, as [`spec_menu_command`] states.
pub fn menu_command(exe: &str, target_format: Option<&str>) -> (res: String)
    ensures
        res@ == spec_menu_command(exe@, match target_format {
            Some(f) => Some(f@),
            None => None,
        }),
{
    let mut s = owned("\"");
    push_str(&mut s, exe);
    match target_format {
        Some(f) => {
            push_str(&mut s, "\" --quick-convert ");
            push_str(&mut s, f);
            push_str(&mut s, " \"%1\"");
        },
        None => {
            push_str(&mut s, "\" --open \"%1\"");
        },
    }
    s
}

fn push_entry(changes: &mut Vec<RegistryChange>, exe: &str, key_name: &str, label: &str, target_format: Option<&str>)
    ensures
        changes_view(final(changes)@) == changes_view(old(changes)@) + entry_changes(exe@, key_name@, label@, match target_format {
            Some(f) => Some(f@),
            None => None,
        }),
{
    let mut item = owned("Software\\Classes\\*\\shell\\Recast");
    push_str(&mut item, "\\shell\\");
    push_str(&mut item, key_name);
    let mut command_key = item.clone();
    push_str(&mut command_key, "\\command");
    changes.push(RegistryChange::SetValue { key: item, name: owned("MUIVerb"), value: owned(label) });
    changes.push(RegistryChange::SetValue { key: command_key, name: owned(""), value: menu_command(exe, target_format) });
    assert(changes_view(changes@) =~= changes_view(old(changes)@) + entry_changes(exe@, key_name@, label@, match target_format {
        Some(f) => Some(f@),
        None => None,
    }));
}

/// The registry edits that install the context menu for an executable, as
/// [`spec_install_changes`] states; only on Windows.
pub fn install_windows_context_menu(exe_path: &str, platform: Platform) -> (res: Result<Vec<RegistryChange>, ShellIntegrationError>)
    ensures
        platform == Platform::Windows ==> (res matches Ok(c) && changes_view(c@) == spec_install_changes(exe_path@)),
        platform != Platform::Windows ==> res matches Err(ShellIntegrationError::UnsupportedPlatform),
{
    if platform != Platform::Windows {
        return Err(ShellIntegrationError::UnsupportedPlatform);
    }
    let mut changes: Vec<RegistryChange> = Vec::new();
    let key = "Software\\Classes\\*\\shell\\Recast";
    changes.push(RegistryChange::SetValue { key: owned(key), name: owned("MUIVerb"), value: owned("Recast") });
    changes.push(RegistryChange::SetValue { key: owned(key), name: owned("Icon"), value: owned(exe_path) });
    changes.push(RegistryChange::SetValue { key: owned(key), name: owned("SubCommands"), value: owned("") });
    let ghost head = changes_view(changes@);
    assert(head =~= seq![
        RegistryChangeView::SetValue { key: menu_key(), name: "MUIVerb"@, value: "Recast"@ },
        RegistryChangeView::SetValue { key: menu_key(), name: "Icon"@, value: exe_path@ },
        RegistryChangeView::SetValue { key: menu_key(), name: "SubCommands"@, value: ""@ },
    ]);
    push_entry(&mut changes, exe_path, "00-open", "Open in Recast", None);
    push_entry(&mut changes, exe_path, "10-jpg", "Convert to JPG", Some("jpg"));
    push_entry(&mut changes, exe_path, "20-png", "Convert to PNG", Some("png"));
    push_entry(&mut changes, exe_path, "30-webp", "Convert to WebP", Some("webp"));
    push_entry(&mut changes, exe_path, "40-mp3", "Convert to MP3", Some("mp3"));
    push_entry(&mut changes, exe_path, "50-mp4", "Convert to MP4", Some("mp4"));
    Ok(changes)
}

/// The registry edits that remove the context menu: delete the menu's key;
/// only on Windows.
pub fn remove_windows_context_menu(platform: Platform) -> (res: Result<Vec<RegistryChange>, ShellIntegrationError>)
    ensures
        platform == Platform::Windows ==> (res matches Ok(c) && changes_view(c@) == seq![RegistryChangeView::DeleteTree { key: menu_key() }]),
        platform != Platform::Windows ==> res matches Err(ShellIntegrationError::UnsupportedPlatform),
{
    if platform != Platform::Windows {
        return Err(ShellIntegrationError::UnsupportedPlatform);
    }
    let mut changes: Vec<RegistryChange> = Vec::new();
    changes.push(RegistryChange::DeleteTree { key: owned("Software\\Classes\\*\\shell\\Recast") });
    assert(changes_view(changes@) =~= seq![RegistryChangeView::DeleteTree { key: menu_key() }]);
    Ok(changes)
}

} // verus!
