//! The Settings window's rules: how saving, the theme, dotfiles and the
//! list's columns change when a control is used, and what the previewer
//! has to do afterwards. Some column always stays visible.
use vstd::prelude::*;

verus! {

/// Where an export is written.
#[derive(Clone, Copy, Debug, PartialEq, Eq, Structural)]
pub enum SaveMode {
    Overwrite,
    NewFile,
}

/// What an export does when its new file exists.
#[derive(Clone, Copy, Debug, PartialEq, Eq, Structural)]
pub enum ConflictPolicy {
    Rename,
    Overwrite,
    Skip,
}

/// The window's colors.
#[derive(Clone, Copy, Debug, PartialEq, Eq, Structural)]
pub enum ThemeMode {
    Dark,
    Light,
}

/// Which of the list's columns are shown.
#[derive(Clone, Copy, Debug, PartialEq, Eq, Structural)]
pub struct ListColumns {
    pub edited: bool,
    pub file: bool,
    pub folder: bool,
    pub transcript: bool,
    pub external: bool,
    pub length: bool,
    pub channels: bool,
    pub sample_rate: bool,
    pub bits: bool,
    pub bit_rate: bool,
    pub peak: bool,
    pub lufs: bool,
    pub bpm: bool,
    pub created_at: bool,
    pub modified_at: bool,
    pub gain: bool,
    pub wave: bool,
}

/// The settings the window edits.
pub struct DisplaySettings {
    pub save_mode: SaveMode,
    pub dest_folder: Option<String>,
    pub name_template: String,
    pub conflict: ConflictPolicy,
    pub backup_bak: bool,
    pub theme: ThemeMode,
    pub skip_dotfiles: bool,
    pub list_columns: ListColumns,
}

/// A control of the window was used.
pub enum SettingsChange {
    SaveMode(SaveMode),
    DestFolder(Option<String>),
    NameTemplate(String),
    Conflict(ConflictPolicy),
    BackupBak(bool),
    Theme(ThemeMode),
    /// The "Skip dotfiles" box was toggled to this.
    SkipDotfiles(bool),
    /// The column boxes now read this.
    Columns(ListColumns),
}

/// What the previewer has to do after a change.
#[derive(Clone, Copy, Debug, PartialEq, Eq, Structural)]
pub enum SettingsAction {
    Nothing,
    /// Switch the window to the new theme.
    ApplyTheme,
    /// Save the preferences and scan the open folder again.
    SaveAndRescan,
    /// Save the preferences and drop the dotfiles from the list.
    SaveAndDropDotfiles,
    /// Save the preferences.
    Save,
    /// Keep the sort key on a visible column and sort again.
    Resort,
}

/// Some column would be shown; the external column counts only when there
/// are external columns to show.
pub open spec fn any_column_visible(c: ListColumns, external_available: bool) -> bool {
    c.edited || c.file || c.folder || c.transcript || (c.external && external_available) || c.length
        || c.channels || c.sample_rate || c.bits || c.bit_rate || c.peak || c.lufs || c.bpm
        || c.created_at || c.modified_at || c.gain || c.wave
}

/// The columns the list takes: as asked, with the File column switched on
/// when none would be visible.
pub open spec fn settled_columns(c: ListColumns, external_available: bool) -> ListColumns {
    if any_column_visible(c, external_available) {
        c
    } else {
        ListColumns { file: true, ..c }
    }
}

/// What a change does to the settings and asks of the previewer
/// (`has_root`: a folder is open; `external_available`: there are external
/// columns).
pub open spec fn settings_outcome(
    before: DisplaySettings,
    after: DisplaySettings,
    change: SettingsChange,
    has_root: bool,
    external_available: bool,
    action: SettingsAction,
) -> bool {
    match change {
        SettingsChange::SaveMode(m) => after == (DisplaySettings { save_mode: m, ..before })
            && action == SettingsAction::Nothing,
        SettingsChange::DestFolder(d) => after == (DisplaySettings { dest_folder: d, ..before })
            && action == SettingsAction::Nothing,
        SettingsChange::NameTemplate(t) => after == (DisplaySettings { name_template: t, ..before })
            && action == SettingsAction::Nothing,
        SettingsChange::Conflict(c) => after == (DisplaySettings { conflict: c, ..before }) && action
            == SettingsAction::Nothing,
        SettingsChange::BackupBak(b) => after == (DisplaySettings { backup_bak: b, ..before })
            && action == SettingsAction::Nothing,
        SettingsChange::Theme(t) => if t == before.theme {
            after == before && action == SettingsAction::Nothing
        } else {
            after == (DisplaySettings { theme: t, ..before }) && action == SettingsAction::ApplyTheme
        },
        SettingsChange::SkipDotfiles(skip) => if skip == before.skip_dotfiles {
            after == before && action == SettingsAction::Nothing
        } else {
            &&& after == (DisplaySettings { skip_dotfiles: skip, ..before })
            &&& action == if has_root {
                SettingsAction::SaveAndRescan
            } else if skip {
                SettingsAction::SaveAndDropDotfiles
            } else {
                SettingsAction::Save
            }
        },
        SettingsChange::Columns(c) => {
            let next = settled_columns(c, external_available);
            if next == before.list_columns {
                after == before && action == SettingsAction::Nothing
            } else {
                after == (DisplaySettings { list_columns: next, ..before }) && action
                    == SettingsAction::Resort
            }
        },
    }
}

fn columns_visible(c: &ListColumns, external_available: bool) -> (any: bool)
    ensures
        any == any_column_visible(*c, external_available),
{
    c.edited || c.file || c.folder || c.transcript || (c.external && external_available) || c.length
        || c.channels || c.sample_rate || c.bits || c.bit_rate || c.peak || c.lufs || c.bpm
        || c.created_at || c.modified_at || c.gain || c.wave
}

/// The columns the list takes (see `settled_columns`).
pub fn settle_list_columns(c: ListColumns, external_available: bool) -> (settled: ListColumns)
    ensures
        settled == settled_columns(c, external_available),
        any_column_visible(settled, external_available),
{
    if columns_visible(&c, external_available) {
        c
    } else {
        ListColumns { file: true, ..c }
    }
}

/// Applies a change made in the Settings window (see `settings_outcome`).
pub fn apply_settings_change(
    state: &mut DisplaySettings,
    change: SettingsChange,
    has_root: bool,
    external_available: bool,
) -> (action: SettingsAction)
    ensures
        settings_outcome(*old(state), *final(state), change, has_root, external_available, action),
{
    match change {
        SettingsChange::SaveMode(m) => {
            state.save_mode = m;
            SettingsAction::Nothing
        },
        SettingsChange::DestFolder(d) => {
            state.dest_folder = d;
            SettingsAction::Nothing
        },
        SettingsChange::NameTemplate(t) => {
            state.name_template = t;
            SettingsAction::Nothing
        },
        SettingsChange::Conflict(c) => {
            state.conflict = c;
            SettingsAction::Nothing
        },
        SettingsChange::BackupBak(b) => {
            state.backup_bak = b;
            SettingsAction::Nothing
        },
        SettingsChange::Theme(t) => {
            if t == state.theme {
                SettingsAction::Nothing
            } else {
                state.theme = t;
                SettingsAction::ApplyTheme
            }
        },
        SettingsChange::SkipDotfiles(skip) => {
            if skip == state.skip_dotfiles {
                SettingsAction::Nothing
            } else {
                state.skip_dotfiles = skip;
                if has_root {
                    SettingsAction::SaveAndRescan
                } else if skip {
                    SettingsAction::SaveAndDropDotfiles
                } else {
                    SettingsAction::Save
                }
            }
        },
        SettingsChange::Columns(c) => {
            let next = settle_list_columns(c, external_available);
            if next == state.list_columns {
                SettingsAction::Nothing
            } else {
                state.list_columns = next;
                SettingsAction::Resort
            }
        },
    }
}

/// Whatever the boxes read, the list keeps a visible column.
pub proof fn lemma_some_column_stays_visible(c: ListColumns, external_available: bool)
    ensures
        any_column_visible(settled_columns(c, external_available), external_available),
{
}

/// Every field of the settings but those the flags name is the same in
/// `a` and `b`.
pub open spec fn settings_agree_except(
    a: DisplaySettings,
    b: DisplaySettings,
    save_mode: bool,
    dest_folder: bool,
    name_template: bool,
    conflict: bool,
    backup_bak: bool,
    theme: bool,
    skip_dotfiles: bool,
    list_columns: bool,
) -> bool {
    &&& (save_mode || a.save_mode == b.save_mode)
    &&& (dest_folder || a.dest_folder == b.dest_folder)
    &&& (name_template || a.name_template == b.name_template)
    &&& (conflict || a.conflict == b.conflict)
    &&& (backup_bak || a.backup_bak == b.backup_bak)
    &&& (theme || a.theme == b.theme)
    &&& (skip_dotfiles || a.skip_dotfiles == b.skip_dotfiles)
    &&& (list_columns || a.list_columns == b.list_columns)
}

/// Each of the save controls stores exactly what it was set to and touches
/// nothing else, asking nothing of the previewer.
pub proof fn lemma_save_controls_store_their_value(
    before: DisplaySettings,
    after: DisplaySettings,
    change: SettingsChange,
    has_root: bool,
    external_available: bool,
    action: SettingsAction,
)
    requires
        settings_outcome(before, after, change, has_root, external_available, action),
    ensures
        change matches SettingsChange::SaveMode(m) ==> after.save_mode == m && action
            == SettingsAction::Nothing && settings_agree_except(
            before,
            after,
            true,
            false,
            false,
            false,
            false,
            false,
            false,
            false,
        ),
        change matches SettingsChange::DestFolder(d) ==> after.dest_folder == d && action
            == SettingsAction::Nothing && settings_agree_except(
            before,
            after,
            false,
            true,
            false,
            false,
            false,
            false,
            false,
            false,
        ),
        change matches SettingsChange::NameTemplate(n) ==> after.name_template == n && action
            == SettingsAction::Nothing && settings_agree_except(
            before,
            after,
            false,
            false,
            true,
            false,
            false,
            false,
            false,
            false,
        ),
        change matches SettingsChange::Conflict(c) ==> after.conflict == c && action
            == SettingsAction::Nothing && settings_agree_except(
            before,
            after,
            false,
            false,
            false,
            true,
            false,
            false,
            false,
            false,
        ),
        change matches SettingsChange::BackupBak(b) ==> after.backup_bak == b && action
            == SettingsAction::Nothing && settings_agree_except(
            before,
            after,
            false,
            false,
            false,
            false,
            true,
            false,
            false,
            false,
        ),
{
}

/// The theme ends as chosen, and the window is asked to switch exactly
/// when it changed; nothing else changes.
pub proof fn lemma_theme_choice(
    before: DisplaySettings,
    after: DisplaySettings,
    t: ThemeMode,
    has_root: bool,
    external_available: bool,
    action: SettingsAction,
)
    requires
        settings_outcome(before, after, SettingsChange::Theme(t), has_root, external_available, action),
    ensures
        after.theme == t,
        (action == SettingsAction::ApplyTheme) == (t != before.theme),
        t == before.theme ==> action == SettingsAction::Nothing,
        settings_agree_except(before, after, false, false, false, false, false, true, false, false),
{
}

/// "Skip dotfiles" ends as toggled. When it changed, the preferences are
/// saved and the list follows: the open folder is scanned again, or,
/// without one, dotfiles leave the list when they are now skipped. An
/// unchanged box does nothing. Nothing else changes.
pub proof fn lemma_skip_dotfiles_toggle(
    before: DisplaySettings,
    after: DisplaySettings,
    skip: bool,
    has_root: bool,
    external_available: bool,
    action: SettingsAction,
)
    requires
        settings_outcome(before, after, SettingsChange::SkipDotfiles(skip), has_root, external_available, action),
    ensures
        after.skip_dotfiles == skip,
        skip == before.skip_dotfiles ==> action == SettingsAction::Nothing,
        skip != before.skip_dotfiles && has_root ==> action == SettingsAction::SaveAndRescan,
        skip != before.skip_dotfiles && !has_root && skip ==> action == SettingsAction::SaveAndDropDotfiles,
        skip != before.skip_dotfiles && !has_root && !skip ==> action == SettingsAction::Save,
        settings_agree_except(before, after, false, false, false, false, false, false, true, false),
{
}

/// The columns asked for are taken as they are when one of them can be
/// shown (the external column only when there are external columns);
/// otherwise the File column is switched on as well. The list is sorted
/// again exactly when the columns changed; nothing else changes.
pub proof fn lemma_columns_choice(
    before: DisplaySettings,
    after: DisplaySettings,
    c: ListColumns,
    has_root: bool,
    external_available: bool,
    action: SettingsAction,
)
    requires
        settings_outcome(before, after, SettingsChange::Columns(c), has_root, external_available, action),
    ensures
        (c.edited || c.file || c.folder || c.transcript || (c.external && external_available)
            || c.length || c.channels || c.sample_rate || c.bits || c.bit_rate || c.peak || c.lufs
            || c.bpm || c.created_at || c.modified_at || c.gain || c.wave) ==> after.list_columns == c,
        !(c.edited || c.file || c.folder || c.transcript || (c.external && external_available)
            || c.length || c.channels || c.sample_rate || c.bits || c.bit_rate || c.peak || c.lufs
            || c.bpm || c.created_at || c.modified_at || c.gain || c.wave) ==> after.list_columns
            == (ListColumns { file: true, ..c }),
        after.list_columns.file || after.list_columns.edited || after.list_columns.folder
            || after.list_columns.transcript || (after.list_columns.external && external_available)
            || after.list_columns.length || after.list_columns.channels
            || after.list_columns.sample_rate || after.list_columns.bits || after.list_columns.bit_rate
            || after.list_columns.peak || after.list_columns.lufs || after.list_columns.bpm
            || after.list_columns.created_at || after.list_columns.modified_at
            || after.list_columns.gain || after.list_columns.wave,
        (action == SettingsAction::Resort) == (after.list_columns != before.list_columns),
        action == SettingsAction::Resort || action == SettingsAction::Nothing,
        settings_agree_except(before, after, false, false, false, false, false, false, false, true),
{
}

} // verus!
