//! Moving through menus and between the window's controls with the keyboard.
use vstd::prelude::*;
use crate::text::text_eq;

verus! {

/// The entry of a menu with `count` entries that a key moves to from `current`.
pub open spec fn entry_after_key(current: usize, count: usize, key: Seq<char>) -> usize {
    let last = if count == 0 {
        0
    } else {
        (count - 1) as usize
    };
    let wanted = if key == "up"@ {
        if current == 0 {
            0
        } else {
            current - 1
        }
    } else if key == "down"@ {
        current + 1
    } else if key == "home"@ {
        0
    } else if key == "end"@ {
        last as int
    } else {
        current as int
    };
    if wanted < last {
        wanted as usize
    } else {
        last
    }
}

/// The entry of a menu with `count` entries that a key moves to from `current`.
pub fn menu_index(current: usize, count: usize, key: &str) -> (r: usize)
    ensures
        r == entry_after_key(current, count, key@),
{
    let last: usize = if count == 0 {
        0
    } else {
        count - 1
    };
    let wanted: usize = if text_eq(key, "up") {
        if current == 0 {
            0
        } else {
            current - 1
        }
    } else if text_eq(key, "down") {
        if current < last {
            current + 1
        } else {
            last
        }
    } else if text_eq(key, "home") {
        0
    } else if text_eq(key, "end") {
        last
    } else {
        current
    };
    if wanted < last {
        wanted
    } else {
        last
    }
}

/// Whatever the key, the menu stays on an entry it has.
pub proof fn menu_stays_in_bounds(current: usize, count: usize, key: Seq<char>)
    requires
        count > 0,
    ensures
        entry_after_key(current, count, key) < count,
{
}

/// Going down and up again, or up and down again, leads back, but for the ends of the menu.
pub proof fn menu_moves_undo(current: usize, count: usize)
    requires
        current < count,
    ensures
        current + 1 < count ==> entry_after_key(
            entry_after_key(current, count, "down"@),
            count,
            "up"@,
        ) == current,
        current > 0 ==> entry_after_key(
            entry_after_key(current, count, "up"@),
            count,
            "down"@,
        ) == current,
{
    reveal_strlit("up");
    reveal_strlit("down");
    assert("up"@.len() == 2);
    assert("down"@.len() == 4);
}

/// Which dialogs the window has to show. One with a field is there with the number of the field
/// that takes the keyboard; each new field has a number of its own.
#[derive(Clone, Copy, Debug, PartialEq, Eq, Structural)]
pub struct OpenDialogs {
    pub proxy_command_approval: bool,
    pub host_key: bool,
    pub credential: Option<u64>,
    pub sftp_create: Option<u64>,
    pub editor: Option<u64>,
}

/// A dialog that takes the window over.
#[derive(Clone, Copy, Debug, PartialEq, Eq, Structural)]
pub enum Dialog {
    ProxyCommandApproval,
    HostKey,
    Credential,
    SftpCreate,
    Editor,
}

/// The control that a dialog gives the focus to. Fields are known by their numbers.
#[derive(Clone, Copy, Debug, PartialEq, Eq, Structural)]
pub enum DialogFocus {
    /// The dialog as a whole.
    Dialog,
    /// The field for the secret.
    CredentialInput(u64),
    /// The field for the new name.
    SftpCreateInput(u64),
    /// The editor's first field.
    ProfileName(u64),
}

impl OpenDialogs {
    /// The dialog is wanted.
    pub open spec fn wants(self, dialog: Dialog) -> bool {
        match dialog {
            Dialog::ProxyCommandApproval => self.proxy_command_approval,
            Dialog::HostKey => self.host_key,
            Dialog::Credential => self.credential is Some,
            Dialog::SftpCreate => self.sftp_create is Some,
            Dialog::Editor => self.editor is Some,
        }
    }

    /// The dialog that is shown: the first one wanted, in the order of the variants.
    pub open spec fn shown(self) -> Option<Dialog> {
        if self.proxy_command_approval {
            Some(Dialog::ProxyCommandApproval)
        } else if self.host_key {
            Some(Dialog::HostKey)
        } else if self.credential is Some {
            Some(Dialog::Credential)
        } else if self.sftp_create is Some {
            Some(Dialog::SftpCreate)
        } else if self.editor is Some {
            Some(Dialog::Editor)
        } else {
            None
        }
    }

    /// The control that the dialog that is shown gives the focus to.
    pub open spec fn focus(self) -> Option<DialogFocus> {
        match (self.shown(), self.credential, self.sftp_create, self.editor) {
            (Some(Dialog::ProxyCommandApproval), _, _, _) => Some(DialogFocus::Dialog),
            (Some(Dialog::HostKey), _, _, _) => Some(DialogFocus::Dialog),
            (Some(Dialog::Credential), Some(field), _, _) => Some(
                DialogFocus::CredentialInput(field),
            ),
            (Some(Dialog::SftpCreate), _, Some(field), _) => Some(
                DialogFocus::SftpCreateInput(field),
            ),
            (Some(Dialog::Editor), _, _, Some(field)) => Some(DialogFocus::ProfileName(field)),
            _ => None,
        }
    }

    /// The dialog that is shown.
    pub fn top(&self) -> (r: Option<Dialog>)
        ensures
            r == self.shown(),
    {
        if self.proxy_command_approval {
            Some(Dialog::ProxyCommandApproval)
        } else if self.host_key {
            Some(Dialog::HostKey)
        } else if self.credential.is_some() {
            Some(Dialog::Credential)
        } else if self.sftp_create.is_some() {
            Some(Dialog::SftpCreate)
        } else if self.editor.is_some() {
            Some(Dialog::Editor)
        } else {
            None
        }
    }

    /// The keyboard moves within a dialog rather than through the window.
    pub fn is_modal(&self) -> (r: bool)
        ensures
            r == (self.shown() is Some),
    {
        self.top().is_some()
    }
}

/// A dialog is shown exactly where one is wanted, and only a dialog that is wanted.
pub proof fn shown_dialog_is_wanted(dialogs: OpenDialogs)
    ensures
        dialogs.shown() is Some <==> exists|dialog: Dialog| dialogs.wants(dialog),
        dialogs.shown() matches Some(dialog) ==> dialogs.wants(dialog),
{
    match dialogs.shown() {
        Some(dialog) => assert(dialogs.wants(dialog)),
        None => (),
    }
}

/// The control to focus for the dialogs now open, given what was focused for those before:
/// the target to remember, and whether the focus is to move there.
pub fn focus_new_modal(dialogs: &OpenDialogs, initial: Option<DialogFocus>) -> (r: (
    Option<DialogFocus>,
    bool,
))
    ensures
        r.0 == dialogs.focus(),
        r.1 <==> r.0 is Some && r.0 != initial,
{
    let focus = if dialogs.proxy_command_approval || dialogs.host_key {
        Some(DialogFocus::Dialog)
    } else {
        match (dialogs.credential, dialogs.sftp_create, dialogs.editor) {
            (Some(field), _, _) => Some(DialogFocus::CredentialInput(field)),
            (None, Some(field), _) => Some(DialogFocus::SftpCreateInput(field)),
            (None, None, Some(field)) => Some(DialogFocus::ProfileName(field)),
            (None, None, None) => None,
        }
    };
    let moves = match (focus, initial) {
        (None, _) => false,
        (Some(_), None) => true,
        (Some(a), Some(b)) => a != b,
    };
    (focus, moves)
}

/// A dialog that is shown always has a control to focus. A question that replaces another of its
/// kind takes the keyboard, as its field is a new one.
pub proof fn new_question_takes_the_keyboard(dialogs: OpenDialogs, before: u64, after: u64)
    requires
        dialogs.shown() == Some(Dialog::Credential),
        before != after,
    ensures
        ({
            let asked = OpenDialogs { credential: Some(before), ..dialogs };
            let asked_again = OpenDialogs { credential: Some(after), ..dialogs };
            asked_again.focus() is Some && asked_again.focus() != asked.focus()
        }),
        forall|any: OpenDialogs| any.shown() is Some <==> (#[trigger] any.focus()) is Some,
{
}

/// A walk through the controls that looks for one within the open dialog. Controls are known by
/// their numbers.
#[derive(Clone, Copy, Debug, PartialEq, Eq, Structural)]
pub struct FocusWalk {
    /// The control that had the focus before.
    pub original: Option<u64>,
    /// The first control that the walk passed over.
    pub first: Option<u64>,
}

impl FocusWalk {
    /// A walk that begins at a control.
    pub fn begin(original: Option<u64>) -> (r: Self)
        ensures
            r == (FocusWalk { original, first: None }),
    {
        FocusWalk { original, first: None }
    }

    /// The walk ends at this control.
    pub open spec fn ends_at(self, focused: Option<u64>, in_scope: bool) -> bool {
        in_scope || focused is None || focused == self.original || focused == self.first
    }

    /// Takes note of the control that one step led to; true where the walk ends there.
    pub fn step(&mut self, focused: Option<u64>, in_scope: bool) -> (r: bool)
        ensures
            r == old(self).ends_at(focused, in_scope),
            *final(self) == (FocusWalk {
                first: if r || old(self).first is Some {
                    old(self).first
                } else {
                    focused
                },
                ..*old(self)
            }),
    {
        let id: u64 = match focused {
            None => return true,
            Some(id) => id,
        };
        if in_scope {
            return true;
        }
        match self.original {
            Some(original) => {
                if original == id {
                    return true;
                }
            },
            None => (),
        }
        match self.first {
            Some(first) => {
                if first == id {
                    return true;
                }
            },
            None => {
                self.first = Some(id);
            },
        }
        false
    }

    /// Where a walk stands after it passed the controls of `path` without coming to its end.
    pub open spec fn after(self, path: Seq<u64>) -> FocusWalk {
        if path.len() == 0 || self.first is Some {
            self
        } else {
            FocusWalk { first: Some(path[0]), ..self }
        }
    }
}

/// A walk round a ring of controls ends within one round and one step, though none of them is in
/// the dialog.
pub proof fn walk_round_a_ring_ends(walk: FocusWalk, ring: Seq<u64>)
    requires
        walk.first is None,
        ring.len() > 0,
    ensures
        walk.after(ring).ends_at(Some(ring[0]), false),
{
}

/// What a key does in a part of the window.
#[derive(Clone, Copy, Debug, PartialEq, Eq, Structural)]
pub enum DialogAction {
    SubmitCredential,
    CancelCredential,
    CancelHostKeyVerification,
    CancelSettingsSelector,
    SubmitSftpCreate,
    CancelSftpCreate,
    SubmitQuickCommand,
    CancelQuickCommand,
    SaveProfileEditor,
    CancelProfileEditor,
}

/// A part of the window that has keys of its own.
#[derive(Clone, Copy, Debug, PartialEq, Eq, Structural)]
pub enum KeyContext {
    CredentialPrompt,
    HostKeyPrompt,
    Settings,
    SftpCreatePrompt,
    QuickCommandPrompt,
    ProfileEditor,
}

/// A key of a part of the window.
#[derive(Clone, Copy, Debug, PartialEq, Eq)]
pub struct DialogBinding {
    pub keystroke: &'static str,
    pub action: DialogAction,
    pub context: KeyContext,
}

/// The keys of the parts of the window.
pub open spec fn dialog_keys(windows: bool) -> Seq<DialogBinding> {
    seq![
        DialogBinding {
            keystroke: "enter",
            action: DialogAction::SubmitCredential,
            context: KeyContext::CredentialPrompt,
        },
        DialogBinding {
            keystroke: "escape",
            action: DialogAction::CancelCredential,
            context: KeyContext::CredentialPrompt,
        },
        DialogBinding {
            keystroke: "escape",
            action: DialogAction::CancelHostKeyVerification,
            context: KeyContext::HostKeyPrompt,
        },
        DialogBinding {
            keystroke: "escape",
            action: DialogAction::CancelSettingsSelector,
            context: KeyContext::Settings,
        },
        DialogBinding {
            keystroke: "enter",
            action: DialogAction::SubmitSftpCreate,
            context: KeyContext::SftpCreatePrompt,
        },
        DialogBinding {
            keystroke: "escape",
            action: DialogAction::CancelSftpCreate,
            context: KeyContext::SftpCreatePrompt,
        },
        DialogBinding {
            keystroke: "enter",
            action: DialogAction::SubmitQuickCommand,
            context: KeyContext::QuickCommandPrompt,
        },
        DialogBinding {
            keystroke: "escape",
            action: DialogAction::CancelQuickCommand,
            context: KeyContext::QuickCommandPrompt,
        },
        DialogBinding {
            keystroke: "cmd-s",
            action: DialogAction::SaveProfileEditor,
            context: KeyContext::ProfileEditor,
        },
        DialogBinding {
            keystroke: "escape",
            action: DialogAction::CancelProfileEditor,
            context: KeyContext::ProfileEditor,
        },
    ] + (if windows {
        seq![
            DialogBinding {
                keystroke: "ctrl-s",
                action: DialogAction::SaveProfileEditor,
                context: KeyContext::ProfileEditor,
            },
        ]
    } else {
        seq![]
    })
}

/// The keys of the parts of the window. Windows has the control key besides.
pub fn dialog_bindings(windows: bool) -> (r: Vec<DialogBinding>)
    ensures
        r@ == dialog_keys(windows),
{
    let mut keys: Vec<DialogBinding> = Vec::new();
    keys.push(
        DialogBinding {
            keystroke: "enter",
            action: DialogAction::SubmitCredential,
            context: KeyContext::CredentialPrompt,
        },
    );
    keys.push(
        DialogBinding {
            keystroke: "escape",
            action: DialogAction::CancelCredential,
            context: KeyContext::CredentialPrompt,
        },
    );
    keys.push(
        DialogBinding {
            keystroke: "escape",
            action: DialogAction::CancelHostKeyVerification,
            context: KeyContext::HostKeyPrompt,
        },
    );
    keys.push(
        DialogBinding {
            keystroke: "escape",
            action: DialogAction::CancelSettingsSelector,
            context: KeyContext::Settings,
        },
    );
    keys.push(
        DialogBinding {
            keystroke: "enter",
            action: DialogAction::SubmitSftpCreate,
            context: KeyContext::SftpCreatePrompt,
        },
    );
    keys.push(
        DialogBinding {
            keystroke: "escape",
            action: DialogAction::CancelSftpCreate,
            context: KeyContext::SftpCreatePrompt,
        },
    );
    keys.push(
        DialogBinding {
            keystroke: "enter",
            action: DialogAction::SubmitQuickCommand,
            context: KeyContext::QuickCommandPrompt,
        },
    );
    keys.push(
        DialogBinding {
            keystroke: "escape",
            action: DialogAction::CancelQuickCommand,
            context: KeyContext::QuickCommandPrompt,
        },
    );
    keys.push(
        DialogBinding {
            keystroke: "cmd-s",
            action: DialogAction::SaveProfileEditor,
            context: KeyContext::ProfileEditor,
        },
    );
    keys.push(
        DialogBinding {
            keystroke: "escape",
            action: DialogAction::CancelProfileEditor,
            context: KeyContext::ProfileEditor,
        },
    );
    if windows {
        keys.push(
            DialogBinding {
                keystroke: "ctrl-s",
                action: DialogAction::SaveProfileEditor,
                context: KeyContext::ProfileEditor,
            },
        );
    }
    assert(keys@ =~= dialog_keys(windows));
    keys
}

/// Every part of the window with keys of its own can be left with the escape key.
pub proof fn escape_leaves_everything(windows: bool, context: KeyContext)
    ensures
        exists|i: int|
            0 <= i < dialog_keys(windows).len() && (#[trigger] dialog_keys(windows)[i]).keystroke
                == "escape" && dialog_keys(windows)[i].context == context,
{
    let i: int = match context {
        KeyContext::CredentialPrompt => 1,
        KeyContext::HostKeyPrompt => 2,
        KeyContext::Settings => 3,
        KeyContext::SftpCreatePrompt => 5,
        KeyContext::QuickCommandPrompt => 7,
        KeyContext::ProfileEditor => 9,
    };
    assert(dialog_keys(windows)[i].context == context);
}

/// The keys of a menu: up and down go one entry, and stay at the ends; home and end go to the first
/// and the last; any other key stays.
pub proof fn menu_keys_move(current: usize, count: usize, key: Seq<char>)
    requires
        current < count,
    ensures
        current > 0 ==> entry_after_key(current, count, "up"@) == current - 1,
        entry_after_key(0, count, "up"@) == 0,
        current + 1 < count ==> entry_after_key(current, count, "down"@) == current + 1,
        entry_after_key((count - 1) as usize, count, "down"@) == count - 1,
        entry_after_key(current, count, "home"@) == 0,
        entry_after_key(current, count, "end"@) == count - 1,
        key != "up"@ && key != "down"@ && key != "home"@ && key != "end"@ ==> entry_after_key(
            current,
            count,
            key,
        ) == current,
{
    reveal_strlit("up");
    reveal_strlit("down");
    reveal_strlit("home");
    reveal_strlit("end");
    assert("up"@.len() == 2 && "down"@.len() == 4 && "home"@.len() == 4 && "end"@.len() == 3);
    assert("down"@[0] == 'd' && "home"@[0] == 'h');
}

/// Of several dialogs that are wanted, the approval of a command goes before a host key, that
/// before a question for a secret, that before a new name, and that before the editor.
pub proof fn urgent_dialogs_come_first(dialogs: OpenDialogs)
    ensures
        dialogs.proxy_command_approval ==> dialogs.shown() == Some(Dialog::ProxyCommandApproval),
        !dialogs.proxy_command_approval && dialogs.host_key ==> dialogs.shown() == Some(
            Dialog::HostKey,
        ),
        dialogs.shown() == Some(Dialog::Credential) ==> !dialogs.proxy_command_approval
            && !dialogs.host_key && dialogs.credential is Some,
        dialogs.shown() == Some(Dialog::SftpCreate) ==> !dialogs.proxy_command_approval
            && !dialogs.host_key && dialogs.credential is None && dialogs.sftp_create is Some,
        dialogs.shown() == Some(Dialog::Editor) ==> !dialogs.proxy_command_approval
            && !dialogs.host_key && dialogs.credential is None && dialogs.sftp_create is None
            && dialogs.editor is Some,
        dialogs.focus() matches Some(DialogFocus::CredentialInput(field)) ==> dialogs.credential
            == Some(field) && dialogs.shown() == Some(Dialog::Credential),
        dialogs.focus() matches Some(DialogFocus::SftpCreateInput(field)) ==> dialogs.sftp_create
            == Some(field) && dialogs.shown() == Some(Dialog::SftpCreate),
        dialogs.focus() matches Some(DialogFocus::ProfileName(field)) ==> dialogs.editor == Some(
            field,
        ) && dialogs.shown() == Some(Dialog::Editor),
        dialogs.focus() == Some(DialogFocus::Dialog) <==> dialogs.proxy_command_approval
            || dialogs.host_key,
{
}

} // verus!
