//! The decisions of a generation, as a step from phase and event to the next
//! phase and what to do: check the login, ask the engine, download each image
//! whatever became of the one before, then report the end.

use vstd::prelude::*;

use crate::commands::{
    done_message, done_message_spec, download_failed_message, download_message, no_images_message,
    no_images_spec,
};
use crate::text::digits;

verus! {

/// Where a generation stands.
pub enum Phase {
    /// Nothing is known yet.
    Start,
    /// The engine is being asked for images.
    Asking,
    /// Image `next` of `count` is being downloaded; `ok` tells, for each one
    /// before it, whether it arrived.
    Downloading { next: u64, count: u64, chat_id: Option<String>, ok: Vec<bool> },
    /// The generation has ended.
    Over,
}

/// What the outside work reports.
pub enum GenEvent {
    /// Whether `cookies.json` holds a login.
    Cookies(bool),
    /// What the engine answered: how many images, the answer text and the
    /// chat id.
    Answered { images: u64, text: String, chat_id: Option<String> },
    /// The current download ended, with its error when it failed.
    Downloaded(Option<String>),
}

/// What to do next. A note is a progress event's stage and message, sent in
/// order before the action.
pub enum GenAction {
    /// Stop with this error.
    Fail(String),
    /// Send the opening events and run the engine.
    Ask,
    /// Send the notes and download image `index`.
    Download { index: u64, notes: Vec<(String, String)> },
    /// Send the notes and return one result per image; `downloaded` tells
    /// which arrived.
    Finish { notes: Vec<(String, String)>, downloaded: Vec<bool> },
    /// The event does not belong to this phase: nothing to do.
    Ignore,
}

pub enum PhaseView {
    Start,
    Asking,
    Downloading { next: nat, count: nat, chat_id: Option<Seq<char>>, ok: Seq<bool> },
    Over,
}

pub enum EventView {
    Cookies(bool),
    Answered { images: nat, text: Seq<char>, chat_id: Option<Seq<char>> },
    Downloaded(Option<Seq<char>>),
}

pub enum ActionView {
    Fail(Seq<char>),
    Ask,
    Download { index: nat, notes: Seq<(Seq<char>, Seq<char>)> },
    Finish { notes: Seq<(Seq<char>, Seq<char>)>, downloaded: Seq<bool> },
    Ignore,
}

pub open spec fn opt_text(o: Option<String>) -> Option<Seq<char>> {
    match o {
        Some(s) => Some(s@),
        None => None,
    }
}

pub open spec fn notes_view(v: Seq<(String, String)>) -> Seq<(Seq<char>, Seq<char>)> {
    v.map_values(|n: (String, String)| (n.0@, n.1@))
}

impl View for Phase {
    type V = PhaseView;

    open spec fn view(&self) -> PhaseView {
        match self {
            Phase::Start => PhaseView::Start,
            Phase::Asking => PhaseView::Asking,
            Phase::Downloading { next, count, chat_id, ok } => PhaseView::Downloading {
                next: *next as nat,
                count: *count as nat,
                chat_id: opt_text(*chat_id),
                ok: ok@,
            },
            Phase::Over => PhaseView::Over,
        }
    }
}

impl View for GenEvent {
    type V = EventView;

    open spec fn view(&self) -> EventView {
        match self {
            GenEvent::Cookies(b) => EventView::Cookies(*b),
            GenEvent::Answered { images, text, chat_id } => EventView::Answered {
                images: *images as nat,
                text: text@,
                chat_id: opt_text(*chat_id),
            },
            GenEvent::Downloaded(e) => EventView::Downloaded(opt_text(*e)),
        }
    }
}

impl View for GenAction {
    type V = ActionView;

    open spec fn view(&self) -> ActionView {
        match self {
            GenAction::Fail(e) => ActionView::Fail(e@),
            GenAction::Ask => ActionView::Ask,
            GenAction::Download { index, notes } => ActionView::Download {
                index: *index as nat,
                notes: notes_view(notes@),
            },
            GenAction::Finish { notes, downloaded } => ActionView::Finish {
                notes: notes_view(notes@),
                downloaded: downloaded@,
            },
            GenAction::Ignore => ActionView::Ignore,
        }
    }
}

/// A phase that can occur: a download is under way for an image that exists,
/// and every image before it has its outcome.
pub open spec fn phase_ok(p: PhaseView) -> bool {
    match p {
        PhaseView::Downloading { next, count, ok, .. } => next < count && ok.len() == next,
        _ => true,
    }
}

/// `下载图片 i/n…`, for image `index` counted from zero.
pub open spec fn download_note(index: nat, count: nat) -> (Seq<char>, Seq<char>) {
    ("download"@, "下载图片 "@ + digits(index + 1, 10) + "/"@ + digits(count, 10) + "…"@)
}

/// `第 i 张下载失败：<error>`, for image `index` counted from zero.
pub open spec fn failed_note(index: nat, error: Seq<char>) -> (Seq<char>, Seq<char>) {
    ("download"@, "第 "@ + digits(index + 1, 10) + " 张下载失败："@ + error)
}

/// The message a generation stops with when no login was imported.
pub open spec fn no_cookies_message() -> Seq<char> {
    "还没有导入 Cookie，请先在设置里导入"@
}

/// One step of a generation.
pub open spec fn gen_step(p: PhaseView, e: EventView) -> (PhaseView, ActionView) {
    match p {
        PhaseView::Start => match e {
            EventView::Cookies(has) => if has {
                (PhaseView::Asking, ActionView::Ask)
            } else {
                (PhaseView::Over, ActionView::Fail(no_cookies_message()))
            },
            _ => (p, ActionView::Ignore),
        },
        PhaseView::Asking => match e {
            EventView::Answered { images, text, chat_id } => if images == 0 {
                (PhaseView::Over, ActionView::Fail(no_images_spec(text)))
            } else {
                (
                    PhaseView::Downloading { next: 0, count: images, chat_id, ok: Seq::empty() },
                    ActionView::Download { index: 0, notes: seq![download_note(0, images)] },
                )
            },
            _ => (p, ActionView::Ignore),
        },
        PhaseView::Downloading { next, count, chat_id, ok } => match e {
            EventView::Downloaded(err) => {
                let failed = match err {
                    Some(m) => seq![failed_note(next, m)],
                    None => Seq::empty(),
                };
                let ok2 = ok.push(err is None);
                if next + 1 < count {
                    (
                        PhaseView::Downloading { next: next + 1, count, chat_id, ok: ok2 },
                        ActionView::Download {
                            index: next + 1,
                            notes: failed + seq![download_note(next + 1, count)],
                        },
                    )
                } else {
                    (
                        PhaseView::Over,
                        ActionView::Finish {
                            notes: failed + seq![("done"@, done_message_spec(count, chat_id))],
                            downloaded: ok2,
                        },
                    )
                }
            },
            _ => (p, ActionView::Ignore),
        },
        PhaseView::Over => (p, ActionView::Ignore),
    }
}

fn note(stage: &str, message: String) -> (r: (String, String))
    ensures
        r.0@ == stage@,
        r.1@ == message@,
{
    (String::from_str(stage), message)
}

/// Takes one step of a generation: the next phase and what to do.
pub fn generate_step(phase: Phase, event: GenEvent) -> (r: (Phase, GenAction))
    requires
        phase_ok(phase@),
    ensures
        phase_ok(r.0@),
        (r.0@, r.1@) == gen_step(phase@, event@),
{
    match phase {
        Phase::Start => match event {
            GenEvent::Cookies(has) => {
                if has {
                    (Phase::Asking, GenAction::Ask)
                } else {
                    (Phase::Over, GenAction::Fail(String::from_str("还没有导入 Cookie，请先在设置里导入")))
                }
            },
            _ => (Phase::Start, GenAction::Ignore),
        },
        Phase::Asking => match event {
            GenEvent::Answered { images, text, chat_id } => {
                if images == 0 {
                    (Phase::Over, GenAction::Fail(no_images_message(text.as_str())))
                } else {
                    let mut notes: Vec<(String, String)> = Vec::new();
                    notes.push(note("download", download_message(0, images)));
                    assert(notes_view(notes@) =~= seq![download_note(0, images as nat)]);
                    let ok: Vec<bool> = Vec::new();
                    assert(ok@ =~= Seq::<bool>::empty());
                    (
                        Phase::Downloading { next: 0, count: images, chat_id, ok },
                        GenAction::Download { index: 0, notes },
                    )
                }
            },
            _ => (Phase::Asking, GenAction::Ignore),
        },
        Phase::Downloading { next, count, chat_id, ok } => match event {
            GenEvent::Downloaded(err) => {
                let mut ok = ok;
                let mut notes: Vec<(String, String)> = Vec::new();
                let good = err.is_none();
                let ghost failed: Seq<(Seq<char>, Seq<char>)> = match opt_text(err) {
                    Some(m) => seq![failed_note(next as nat, m)],
                    None => Seq::empty(),
                };
                match err {
                    Some(m) => {
                        notes.push(note("download", download_failed_message(next, m.as_str())));
                    },
                    None => {},
                }
                assert(notes_view(notes@) =~= failed);
                ok.push(good);
                if next + 1 < count {
                    notes.push(note("download", download_message(next + 1, count)));
                    assert(notes_view(notes@) =~= failed + seq![
                        download_note((next + 1) as nat, count as nat),
                    ]);
                    (
                        Phase::Downloading { next: next + 1, count, chat_id, ok },
                        GenAction::Download { index: next + 1, notes },
                    )
                } else {
                    let done = match &chat_id {
                        Some(c) => done_message(count, Some(c.as_str())),
                        None => done_message(count, None),
                    };
                    notes.push(note("done", done));
                    assert(notes_view(notes@) =~= failed + seq![
                        ("done"@, done_message_spec(count as nat, opt_text(chat_id))),
                    ]);
                    (Phase::Over, GenAction::Finish { notes, downloaded: ok })
                }
            },
            _ => (Phase::Downloading { next, count, chat_id, ok }, GenAction::Ignore),
        },
        Phase::Over => (Phase::Over, GenAction::Ignore),
    }
}

} // verus!
