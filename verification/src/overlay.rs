//! The overlay files: one small text file per operator setting, and how a
//! setting is written to its file without a reader ever seeing half of it.
//!
//! The library does not touch the file system. A write is a list of steps that
//! the shell carries out in order; a read is a snapshot of the files that the
//! shell took.

use vstd::prelude::*;

verus! {

/// The directory that holds the overlay files. The launch, watch and touch
/// calibration helpers look for them at the same place.
pub const OVERLAY_DIR: &'static str = "/var/lib/evo/settings/kiosk";

/// One operator setting that has an overlay file.
#[derive(Debug, Clone, Copy, PartialEq, Eq, Structural)]
pub enum OverlayKey {
    /// The rotation of the display.
    DisplayRotation,
    /// The rotation of the touch panel.
    TouchRotation,
    /// The single-axis rotation from before display and touch were decoupled.
    LegacyRotation,
    /// The horizontal flip of the touch panel.
    TouchHflip,
    /// The vertical flip of the touch panel.
    TouchVflip,
    /// The backlight, in percent.
    Brightness,
    /// The idle time before the screen sleeps.
    SleepTimeoutSeconds,
    /// The operator's wish to keep the screen awake during playback.
    SleepInhibitWhilePlaying,
    /// Whether playback is going on.
    SleepInhibitActive,
    /// Whether the kiosk unit is enabled.
    KioskEnabled,
}

impl OverlayKey {
    /// The name of the setting's file.
    pub open spec fn name(self) -> Seq<char> {
        match self {
            OverlayKey::DisplayRotation => "display_rotation"@,
            OverlayKey::TouchRotation => "touch_rotation"@,
            OverlayKey::LegacyRotation => "rotation"@,
            OverlayKey::TouchHflip => "touch_hflip"@,
            OverlayKey::TouchVflip => "touch_vflip"@,
            OverlayKey::Brightness => "brightness"@,
            OverlayKey::SleepTimeoutSeconds => "sleep_timeout_seconds"@,
            OverlayKey::SleepInhibitWhilePlaying => "sleep_inhibit_while_playing"@,
            OverlayKey::SleepInhibitActive => "sleep_inhibit_active"@,
            OverlayKey::KioskEnabled => "kiosk_enabled"@,
        }
    }

    /// The path of the setting's file.
    pub open spec fn path_text(self) -> Seq<char> {
        OVERLAY_DIR@ + "/"@ + self.name()
    }

    /// The path that a new value is written to before it replaces the file.
    pub open spec fn tmp_path_text(self) -> Seq<char> {
        self.path_text() + ".tmp"@
    }

    /// The name of the setting's file.
    pub fn file_name(self) -> (r: &'static str)
        ensures
            r@ == self.name(),
    {
        match self {
            OverlayKey::DisplayRotation => "display_rotation",
            OverlayKey::TouchRotation => "touch_rotation",
            OverlayKey::LegacyRotation => "rotation",
            OverlayKey::TouchHflip => "touch_hflip",
            OverlayKey::TouchVflip => "touch_vflip",
            OverlayKey::Brightness => "brightness",
            OverlayKey::SleepTimeoutSeconds => "sleep_timeout_seconds",
            OverlayKey::SleepInhibitWhilePlaying => "sleep_inhibit_while_playing",
            OverlayKey::SleepInhibitActive => "sleep_inhibit_active",
            OverlayKey::KioskEnabled => "kiosk_enabled",
        }
    }

    /// The path of the setting's file.
    pub fn path(self) -> (r: String)
        ensures
            r@ == self.path_text(),
    {
        let mut r = OVERLAY_DIR.to_owned();
        r.append("/");
        r.append(self.file_name());
        r
    }
}

/// One step on the file system. Steps are carried out in order, and the first
/// that fails ends the list.
#[derive(Debug)]
pub enum FsStep {
    /// Create a directory with all its parents, where they are missing.
    CreateDirAll { path: String },
    /// Create or empty a file, write `contents` to it and sync it to disk.
    WriteSynced { path: String, contents: String },
    /// Rename a file over another.
    Rename { from: String, to: String },
}

/// What a step does, over text.
pub enum StepModel {
    CreateDirAll { path: Seq<char> },
    WriteSynced { path: Seq<char>, contents: Seq<char> },
    Rename { from: Seq<char>, to: Seq<char> },
}

impl View for FsStep {
    type V = StepModel;

    open spec fn view(&self) -> StepModel {
        match *self {
            FsStep::CreateDirAll { path } => StepModel::CreateDirAll { path: path@ },
            FsStep::WriteSynced { path, contents } => StepModel::WriteSynced {
                path: path@,
                contents: contents@,
            },
            FsStep::Rename { from, to } => StepModel::Rename { from: from@, to: to@ },
        }
    }
}

/// What a list of steps does, over text.
pub open spec fn step_models(steps: Seq<FsStep>) -> Seq<StepModel> {
    steps.map_values(|s: FsStep| s@)
}

/// The steps that replace the file of `key` by `contents`.
pub open spec fn overlay_steps(key: OverlayKey, contents: Seq<char>) -> Seq<StepModel> {
    seq![
        StepModel::CreateDirAll { path: OVERLAY_DIR@ },
        StepModel::WriteSynced { path: key.tmp_path_text(), contents },
        StepModel::Rename { from: key.tmp_path_text(), to: key.path_text() },
    ]
}

/// The steps that replace the file of `key` by `contents`: the text goes to a
/// file beside it, reaches the disk, and takes the file's place in one rename.
pub fn write_overlay_atomic(key: OverlayKey, contents: &str) -> (r: Vec<FsStep>)
    ensures
        step_models(r@) == overlay_steps(key, contents@),
{
    let path = key.path();
    let mut tmp_path = key.path();
    tmp_path.append(".tmp");
    let mut steps: Vec<FsStep> = Vec::new();
    steps.push(FsStep::CreateDirAll { path: OVERLAY_DIR.to_owned() });
    steps.push(
        FsStep::WriteSynced { path: tmp_path.clone(), contents: contents.to_owned() },
    );
    steps.push(FsStep::Rename { from: tmp_path, to: path });
    assert(step_models(steps@) =~= overlay_steps(key, contents@));
    steps
}

/// The files of a file system that hold text, by path.
pub type Files = Map<Seq<char>, Seq<char>>;

/// The text of the file at `path`, where there is one.
pub open spec fn text_at(files: Files, path: Seq<char>) -> Option<Seq<char>> {
    if files.dom().contains(path) {
        Some(files[path])
    } else {
        None
    }
}

/// The files once `step` is done.
pub open spec fn after_step(files: Files, step: StepModel) -> Files {
    match step {
        StepModel::CreateDirAll { .. } => files,
        StepModel::WriteSynced { path, contents } => files.insert(path, contents),
        StepModel::Rename { from, to } => if files.dom().contains(from) {
            files.remove(from).insert(to, files[from])
        } else {
            files
        },
    }
}

/// The files once all of `steps` are done.
pub open spec fn after_steps(files: Files, steps: Seq<StepModel>) -> Files
    decreases steps.len(),
{
    if steps.len() == 0 {
        files
    } else {
        after_step(after_steps(files, steps.drop_last()), steps.last())
    }
}

/// Whether a reader may find `seen` while `step` is being carried out on
/// `files`. A file that is being written may hold anything or be absent; a
/// rename happens at once.
pub open spec fn visible_during(files: Files, step: StepModel, seen: Files) -> bool {
    match step {
        StepModel::CreateDirAll { .. } => seen == files,
        StepModel::WriteSynced { path, .. } => seen.remove(path) == files.remove(path),
        StepModel::Rename { .. } => seen == files || seen == after_step(files, step),
    }
}

/// No two settings share a file, and no setting's file is the one that
/// another setting's new value is written to first.
pub proof fn law_overlay_paths_are_distinct(a: OverlayKey, b: OverlayKey)
    ensures
        a.path_text() == b.path_text() <==> a == b,
        a.tmp_path_text() != b.path_text(),
{
    reveal_strlit("display_rotation");
    reveal_strlit("touch_rotation");
    reveal_strlit("rotation");
    reveal_strlit("touch_hflip");
    reveal_strlit("touch_vflip");
    reveal_strlit("brightness");
    reveal_strlit("sleep_timeout_seconds");
    reveal_strlit("sleep_inhibit_while_playing");
    reveal_strlit("sleep_inhibit_active");
    reveal_strlit("kiosk_enabled");
    reveal_strlit(".tmp");
    let d = (OVERLAY_DIR@ + "/"@).len() as int;
    assert(a.path_text().skip(d) =~= a.name());
    assert(b.path_text().skip(d) =~= b.name());
    if a != b {
        assert(a.name().len() != b.name().len() || a.name()[0] != b.name()[0] || a.name()[6]
            != b.name()[6] || a.name()[8] != b.name()[8]);
    }
    let t = a.tmp_path_text();
    assert(t[t.len() - 4] == '.');
    let p = b.path_text();
    assert(p[p.len() - 4] == b.name()[b.name().len() - 4]);
    assert(b.name()[b.name().len() - 4] != '.');
}

/// However far the steps that replace a setting's file have come, a reader of
/// that file finds the old text or the new one, never anything in between, and
/// a reader of another setting's file finds what was there before.
pub proof fn law_overlay_write_is_atomic(
    files: Files,
    key: OverlayKey,
    contents: Seq<char>,
    done: int,
    seen: Files,
    other: OverlayKey,
)
    requires
        0 <= done < overlay_steps(key, contents).len(),
        visible_during(
            after_steps(files, overlay_steps(key, contents).take(done)),
            overlay_steps(key, contents)[done],
            seen,
        ),
    ensures
        text_at(seen, other.path_text()) == text_at(files, other.path_text()) || (other == key
            && text_at(seen, other.path_text()) == Some(contents)),
{
    let steps = overlay_steps(key, contents);
    let path = other.path_text();
    law_overlay_paths_are_distinct(key, other);
    lemma_overlay_steps_prefixes(files, key, contents);
    let before = after_steps(files, steps.take(done));
    if done == 1 {
        assert(seen.remove(key.tmp_path_text()).dom().contains(path) == seen.dom().contains(path));
        assert(before.remove(key.tmp_path_text()).dom().contains(path) == before.dom().contains(
            path,
        ));
        assert(seen.remove(key.tmp_path_text())[path] == seen[path] || !seen.dom().contains(path));
        assert(before.remove(key.tmp_path_text())[path] == before[path] || !before.dom().contains(
            path,
        ));
    }
}

proof fn lemma_overlay_steps_prefixes(files: Files, key: OverlayKey, contents: Seq<char>)
    ensures
        after_steps(files, overlay_steps(key, contents).take(0)) == files,
        after_steps(files, overlay_steps(key, contents).take(1)) == files,
        after_steps(files, overlay_steps(key, contents).take(2)) == files.insert(
            key.tmp_path_text(),
            contents,
        ),
        after_steps(files, overlay_steps(key, contents)) == files.insert(
            key.tmp_path_text(),
            contents,
        ).remove(key.tmp_path_text()).insert(key.path_text(), contents),
{
    let steps = overlay_steps(key, contents);
    let tmp = key.tmp_path_text();
    assert(after_steps(files, steps.take(0)) == files);
    assert(steps.take(1).drop_last() == steps.take(0));
    assert(steps.take(1).last() == StepModel::CreateDirAll { path: OVERLAY_DIR@ });
    assert(after_steps(files, steps.take(1)) == files);
    assert(steps.take(2).drop_last() == steps.take(1));
    assert(steps.take(2).last() == (StepModel::WriteSynced { path: tmp, contents }));
    assert(after_steps(files, steps.take(2)) == files.insert(tmp, contents));
    assert(steps.drop_last() == steps.take(2));
    assert(steps.last() == (StepModel::Rename { from: tmp, to: key.path_text() }));
}

/// Once the steps are done, the setting's file holds the new text and every
/// other setting's file is as it was.
pub proof fn law_overlay_write_replaces_one_file(
    files: Files,
    key: OverlayKey,
    contents: Seq<char>,
    other: OverlayKey,
)
    ensures
        text_at(after_steps(files, overlay_steps(key, contents)), other.path_text()) == if other
            == key {
            Some(contents)
        } else {
            text_at(files, other.path_text())
        },
{
    lemma_overlay_steps_prefixes(files, key, contents);
    law_overlay_paths_are_distinct(key, other);
}

/// Whether steps leave no torn file behind, however far they have come: a
/// reader of any setting's file finds the text from before the steps or the one
/// from after them.
pub open spec fn never_torn(steps: Seq<StepModel>) -> bool {
    forall|files: Files, done: int, seen: Files, key: OverlayKey|
        #![trigger visible_during(after_steps(files, steps.take(done)), steps[done], seen), key.path_text()]
        0 <= done < steps.len() && visible_during(
            after_steps(files, steps.take(done)),
            steps[done],
            seen,
        ) ==> text_at(seen, key.path_text()) == text_at(files, key.path_text()) || text_at(
            seen,
            key.path_text(),
        ) == text_at(after_steps(files, steps), key.path_text())
}

/// Whether steps begin by creating the directory of the overlay files.
pub open spec fn directory_first(steps: Seq<StepModel>) -> bool {
    steps.len() > 0 && (steps[0] matches StepModel::CreateDirAll { path } && path
        == "/var/lib/evo/settings/kiosk"@)
}

/// The steps that replace a setting's file create its directory first and leave
/// no torn file behind.
pub proof fn law_overlay_steps_are_safe(key: OverlayKey, contents: Seq<char>)
    ensures
        never_torn(overlay_steps(key, contents)),
        directory_first(overlay_steps(key, contents)),
{
    let steps = overlay_steps(key, contents);
    assert forall|files: Files, done: int, seen: Files, other: OverlayKey|
        #![trigger visible_during(after_steps(files, steps.take(done)), steps[done], seen), other.path_text()]
        0 <= done < steps.len() && visible_during(
            after_steps(files, steps.take(done)),
            steps[done],
            seen,
        ) implies text_at(seen, other.path_text()) == text_at(files, other.path_text()) || text_at(
        seen,
        other.path_text(),
    ) == text_at(after_steps(files, steps), other.path_text()) by {
        law_overlay_write_is_atomic(files, key, contents, done, seen, other);
        law_overlay_write_replaces_one_file(files, key, contents, other);
    }
}

/// Carrying out one list of steps and then another is carrying out both.
pub proof fn lemma_after_steps_append(files: Files, a: Seq<StepModel>, b: Seq<StepModel>)
    ensures
        after_steps(files, a + b) == after_steps(after_steps(files, a), b),
    decreases b.len(),
{
    if b.len() == 0 {
        assert(a + b == a);
    } else {
        assert((a + b).drop_last() == a + b.drop_last());
        lemma_after_steps_append(files, a, b.drop_last());
    }
}

/// The overlay texts, by setting.
pub type OverlayTexts = Map<OverlayKey, Seq<char>>;

/// What a reader of every overlay file finds in `files`.
pub open spec fn overlay_texts(files: Files) -> OverlayTexts {
    Map::new(
        |key: OverlayKey| files.dom().contains(key.path_text()),
        |key: OverlayKey| files[key.path_text()],
    )
}

/// Reading every setting after a write finds the new text of the written one
/// and the old text of all others.
pub proof fn law_texts_after_overlay_write(files: Files, key: OverlayKey, contents: Seq<char>)
    ensures
        overlay_texts(after_steps(files, overlay_steps(key, contents))) == overlay_texts(
            files,
        ).insert(key, contents),
{
    let after = after_steps(files, overlay_steps(key, contents));
    assert forall|other: OverlayKey|
        #![trigger overlay_texts(after).dom().contains(other)]
        overlay_texts(after).dom().contains(other) == overlay_texts(files).insert(
            key,
            contents,
        ).dom().contains(other) && (overlay_texts(after).dom().contains(other) ==> overlay_texts(
            after,
        )[other] == overlay_texts(files).insert(key, contents)[other]) by {
        law_overlay_write_replaces_one_file(files, key, contents, other);
    }
    assert(overlay_texts(after) =~= overlay_texts(files).insert(key, contents));
}

spec fn entries_map(entries: Seq<(OverlayKey, String)>) -> OverlayTexts
    decreases entries.len(),
{
    if entries.len() == 0 {
        Map::empty()
    } else {
        entries_map(entries.drop_last()).insert(entries.last().0, entries.last().1@)
    }
}

/// A snapshot of the overlay files. A file that is absent or that could not be
/// read is not in it.
#[derive(Debug)]
pub struct Overlays {
    entries: Vec<(OverlayKey, String)>,
}

impl View for Overlays {
    type V = OverlayTexts;

    closed spec fn view(&self) -> OverlayTexts {
        entries_map(self.entries@)
    }
}

impl Overlays {
    /// The snapshot of an empty directory.
    pub fn new() -> (r: Overlays)
        ensures
            r@ == Map::<OverlayKey, Seq<char>>::empty(),
    {
        Overlays { entries: Vec::new() }
    }

    /// Notes that the file of `key` holds `contents`.
    pub fn record(&mut self, key: OverlayKey, contents: String)
        ensures
            final(self)@ == old(self)@.insert(key, contents@),
    {
        self.entries.push((key, contents));
        assert(self.entries@.drop_last() == old(self).entries@);
    }

    /// The text of the file of `key`.
    pub fn text(&self, key: OverlayKey) -> (r: Option<&str>)
        ensures
            match r {
                Some(t) => self@.dom().contains(key) && self@[key] == t@,
                None => !self@.dom().contains(key),
            },
    {
        let mut i: usize = self.entries.len();
        assert(self.entries@.take(i as int) == self.entries@);
        while i > 0
            invariant
                i <= self.entries.len(),
                entries_map(self.entries@.take(i as int)).dom().contains(key)
                    == self@.dom().contains(key),
                entries_map(self.entries@.take(i as int))[key] == self@[key],
            decreases i,
        {
            let ghost upto = self.entries@.take(i as int);
            assert(upto.drop_last() == self.entries@.take(i - 1));
            i = i - 1;
            assert(upto.last() == self.entries@[i as int]);
            if self.entries[i].0 == key {
                return Some(self.entries[i].1.as_str());
            }
        }
        None
    }
}

/// Nothing of a step is lost in its model, nor any step of a list.
pub proof fn law_steps_are_taken_whole(steps: Seq<FsStep>, i: int)
    requires
        0 <= i < steps.len(),
    ensures
        step_models(steps).len() == steps.len(),
        match steps[i] {
            FsStep::CreateDirAll { path } => step_models(steps)[i] == (StepModel::CreateDirAll {
                path: path@,
            }),
            FsStep::WriteSynced { path, contents } => step_models(steps)[i] == (
            StepModel::WriteSynced { path: path@, contents: contents@ }),
            FsStep::Rename { from, to } => step_models(steps)[i] == (StepModel::Rename {
                from: from@,
                to: to@,
            }),
        },
{
}

/// What a step does to the file at any path: a write gives it its text, a
/// rename moves a text from one path to another, and nothing else is touched.
pub proof fn law_steps_touch_their_own_paths(files: Files, step: StepModel, path: Seq<char>)
    ensures
        text_at(after_step(files, step), path) == match step {
            StepModel::CreateDirAll { .. } => text_at(files, path),
            StepModel::WriteSynced { path: written, contents } => if path == written {
                Some(contents)
            } else {
                text_at(files, path)
            },
            StepModel::Rename { from, to } => if text_at(files, from) is None {
                text_at(files, path)
            } else if path == to {
                text_at(files, from)
            } else if path == from {
                None
            } else {
                text_at(files, path)
            },
        },
{
}

/// A setting's text is that of the file under its name in the overlay
/// directory.
pub proof fn law_texts_are_those_of_the_files(files: Files, key: OverlayKey)
    ensures
        overlay_texts(files).dom().contains(key) <==> files.dom().contains(
            "/var/lib/evo/settings/kiosk"@ + "/"@ + key.name(),
        ),
        overlay_texts(files).dom().contains(key) ==> overlay_texts(files)[key]
            == files["/var/lib/evo/settings/kiosk"@ + "/"@ + key.name()],
{
}

} // verus!
