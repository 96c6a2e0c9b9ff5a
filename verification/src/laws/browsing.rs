//! Laws of browsing: what the keys do in the lists of boards and threads and
//! in a thread, and what these show.

use vstd::prelude::*;

use crate::chars;
use crate::ui::boards;
use crate::ui::boards::{
    BoardList, BoardsEvent, EditBoardForm, Mode, NewBoardForm, Reading, ThreadEvent,
    ThreadList, ThreadView, ThreadsEvent,
};
use crate::ui::input::Key;
use crate::ui::paint;
use crate::ui::paint::{Line, ListPane, Run, TextPane};
use crate::ui::protocol::{BoardInfo, PageTarget, PostInfo, ThreadDetail, ThreadInfo};
use crate::ui::text;

verus! {

// ------------------------------------------------------------------- selecting

/// The place `n` above `from`, or the top.
pub open spec fn higher(from: int, n: int) -> int {
    if from >= n {
        from - n
    } else {
        0
    }
}

/// The place `n` below `from` in a list of `len` items, or the bottom.
pub open spec fn lower(from: int, n: int, len: int) -> int {
    if from + n < len {
        from + n
    } else if len > 0 {
        len - 1
    } else {
        0
    }
}

/// Where a key takes the selection in a list of `len` items: one up or down,
/// ten up or down, to the top or to the bottom, but never off the list; other
/// keys leave it.
pub open spec fn goes(from: int, to: int, len: int, key: Key) -> bool {
    match key {
        Key::Up | Key::Char('k') => to == higher(from, 1),
        Key::Down | Key::Char('j') => to == lower(from, 1, len),
        Key::PageUp => to == higher(from, 10),
        Key::PageDown => to == lower(from, 10, len),
        Key::Home | Key::Char('g') => to == 0,
        Key::End | Key::Char('G') => to == lower(len, 0, len),
        _ => to == from,
    }
}

/// The selection goes where the key takes it.
pub proof fn law_selecting(selected: &mut usize, len: usize, key: Key, r: ())
    requires
        call_ensures(boards::move_selection, (selected, len, key), r),
    ensures
        goes(*old(selected) as int, *final(selected) as int, len as int, key),
{
}

// ---------------------------------------------------------------------- boards

/// Enter opens the board that is selected.
pub proof fn law_enter_opens_the_selected_board(list: &mut BoardList, r: BoardsEvent)
    requires
        call_ensures(BoardList::handle, (list, Key::Enter), r),
        old(list).mode is List,
    ensures
        old(list).selected < old(list).boards@.len() ==> r == BoardsEvent::Open(
            old(list).boards@[old(list).selected as int].id,
        ),
        old(list).selected >= old(list).boards@.len() ==> r is Nothing,
        final(list)@ == old(list)@,
{
}

/// Esc and q go back, and the keys that move move the selection and nothing
/// else.
pub proof fn law_moving_in_the_board_list(list: &mut BoardList, key: Key, r: BoardsEvent)
    requires
        call_ensures(BoardList::handle, (list, key), r),
        old(list).mode is List,
    ensures
        key == Key::Esc || key == Key::Char('q') ==> r is Back && final(list)@ == old(list)@,
        key == Key::Up || key == Key::Down || key == Key::Char('j') || key == Key::Char('k') || key
            == Key::Home || key == Key::End || key == Key::PageUp || key == Key::PageDown ==> r is Nothing
            && goes(
            old(list).selected as int,
            final(list).selected as int,
            old(list).boards@.len() as int,
            key,
        ) && final(list).mode is List && final(list).boards@ == old(list).boards@,
        r !is Open || key == Key::Enter,
{
}

/// The two board forms are for sysops: n begins a new board, e the
/// description of the board that is selected, as it is now.
pub proof fn law_board_forms(list: &mut BoardList, key: Key, r: BoardsEvent)
    requires
        call_ensures(BoardList::handle, (list, key), r),
        old(list).mode is List,
        key == Key::Char('n') || key == Key::Char('e'),
    ensures
        r is Nothing,
        !old(list).sysop ==> final(list).mode is List,
        old(list).sysop && key == Key::Char('n') ==> (final(list).mode matches Mode::New(form)
            && form@.name.text.len() == 0 && form@.description.text.len() == 0 && form@.focus == 0
            && !form.busy),
        old(list).sysop && key == Key::Char('e') && old(list).selected < old(list).boards@.len()
            ==> (final(list).mode matches Mode::Edit(form) && form.board_id == old(list).boards@[old(list).selected as int].id && form.board_name@ == old(list).boards@[old(list).selected as int].name@ && !form.busy),
{
}

/// Enter in the description of a new board that has a name asks for it, with
/// the name and the description as they were typed; without a name it asks
/// for nothing.
pub proof fn law_new_boards_are_asked_for_as_typed(
    list: &mut BoardList,
    form: NewBoardForm,
    r: BoardsEvent,
)
    requires
        call_ensures(BoardList::handle, (list, Key::Enter), r),
        old(list).mode == Mode::New(form),
        !form.busy,
        form.focus == 1,
    ensures
        chars::trim(form@.name.text).len() > 0 ==> (r matches BoardsEvent::CreateBoard {
            name,
            description,
        } && name@ == form@.name.text && description@ == form@.description.text),
        chars::trim(form@.name.text).len() == 0 ==> r is Nothing,
{
}

/// Enter in the form for a description asks for it to be changed, of that
/// board and as it was typed; Esc gives up.
pub proof fn law_descriptions_are_asked_for_as_typed(
    list: &mut BoardList,
    form: EditBoardForm,
    key: Key,
    r: BoardsEvent,
)
    requires
        call_ensures(BoardList::handle, (list, key), r),
        old(list).mode == Mode::Edit(form),
        !form.busy,
    ensures
        key == Key::Enter ==> (r matches BoardsEvent::UpdateDescription { board_id, description }
            && board_id == form.board_id && description@ == form@.description.text),
        key == Key::Esc ==> r is Nothing && final(list).mode is List,
{
}

/// The boards that arrive are the ones shown, and the selection stays where
/// it was if it can.
pub proof fn law_boards_arrive(list: &mut BoardList, boards: Vec<BoardInfo>, r: ())
    requires
        call_ensures(BoardList::set, (list, boards), r),
    ensures
        final(list).boards@ == boards@,
        final(list).loaded,
        final(list).mode is List,
        final(list).sysop == old(list).sysop,
        old(list).selected < boards@.len() ==> final(list).selected == old(list).selected,
        boards@.len() > 0 ==> final(list).selected < boards@.len(),
{
}

/// The text of part `k` of line `i` of a list.
pub open spec fn part(lines: Seq<Line>, i: int, k: int) -> Seq<char> {
    lines[i].spans@[k].text@
}

pub proof fn lemma_part(lines: Seq<Line>, models: Seq<Seq<Run>>, i: int, k: int)
    requires
        paint::line_models(lines) == models,
        0 <= i < models.len(),
        0 <= k < models[i].len(),
    ensures
        lines.len() == models.len(),
        lines[i].spans@.len() == models[i].len(),
        part(lines, i, k) == models[i][k].text,
        lines[i].spans@[k].style == models[i][k].style,
{
    assert(paint::line_models(lines)[i] == lines[i]@);
    assert(lines[i]@[k] == lines[i].spans@[k]@);
}

/// The list shows the boards in their order, each by its name, its
/// description and its counts, and marks the one that is selected.
pub proof fn law_boards_are_drawn(list: &BoardList, i: int, r: ListPane)
    requires
        call_ensures(BoardList::draw, (list,), r),
        list.loaded,
        0 <= i < list.boards@.len(),
    ensures
        r.items@.len() == list.boards@.len(),
        list.boards@[i].name@.is_prefix_of(part(r.items@, i, 0)),
        part(r.items@, i, 1) == list.boards@[i].description@ + "  ("@ + chars::decimal_int(
            list.boards@[i].thread_count as int,
        ) + " threads)"@,
        part(r.items@, i, 2) == if list.boards@[i].unread_threads > 0 {
            "  "@ + chars::decimal_int(list.boards@[i].unread_threads as int) + " unread"@
        } else {
            Seq::empty()
        },
        r.selected == Some(list.selected),
{
    let models = list@.drawn().items;
    let b = list.boards@[i];
    lemma_part(r.items@, models, i, 0);
    lemma_part(r.items@, models, i, 1);
    lemma_part(r.items@, models, i, 2);
    assert(chars::padded(b.name@, 14).subrange(0, b.name@.len() as int) =~= b.name@);
}

// --------------------------------------------------------------------- threads

/// Enter opens the thread that is selected, of this board, and remembers the
/// page of the list.
pub proof fn law_enter_opens_the_selected_thread(list: &mut ThreadList, r: ThreadsEvent)
    requires
        call_ensures(ThreadList::handle, (list, Key::Enter), r),
        !old(list).confirm_delete,
    ensures
        old(list).selected < old(list).threads@.len() ==> (r matches ThreadsEvent::Open {
            board_id,
            thread_id,
            list_page,
        } && thread_id == old(list).threads@[old(list).selected as int].id && board_id == old(list).board_id && list_page == old(list).page),
        old(list).selected >= old(list).threads@.len() ==> r is Nothing,
        final(list)@ == old(list)@,
{
}

/// n starts a thread on this board, m marks this board as read for members,
/// Esc and q go back; none of them changes the list.
pub proof fn law_thread_list_commands(list: &mut ThreadList, key: Key, r: ThreadsEvent)
    requires
        call_ensures(ThreadList::handle, (list, key), r),
        !old(list).confirm_delete,
        key == Key::Char('n') || key == Key::Char('m') || key == Key::Esc || key == Key::Char('q'),
    ensures
        key == Key::Char('n') ==> (r matches ThreadsEvent::New { board_id } && board_id == old(list).board_id),
        key == Key::Char('m') && old(list).member ==> (r matches ThreadsEvent::MarkBoardRead {
            board_id,
            page,
        } && board_id == old(list).board_id && page == old(list).page),
        key == Key::Char('m') && !old(list).member ==> r is Nothing,
        key == Key::Esc || key == Key::Char('q') ==> r is Back,
        final(list)@ == old(list)@,
{
}

/// The keys that turn pages ask for the page before and the page behind, if
/// there is one; PgDn does at the end of the list, PgUp at its start.
pub proof fn law_turning_pages_of_the_list(list: &mut ThreadList, key: Key, r: ThreadsEvent)
    requires
        call_ensures(ThreadList::handle, (list, key), r),
        !old(list).confirm_delete,
    ensures
        key == Key::Right || key == Key::Char('>') || key == Key::Char('.') || (key == Key::PageDown
            && old(list).selected + 1 >= old(list).threads@.len()) ==> if old(list).page + 1
            < old(list).pages {
            r matches ThreadsEvent::Page { board_id, page } && board_id == old(list).board_id
                && page == old(list).page + 1
        } else {
            r is Nothing
        },
        key == Key::Left || key == Key::Char('<') || key == Key::Char(',') || (key == Key::PageUp
            && old(list).selected == 0) ==> if 0 < old(list).page && old(list).page - 1 < old(list).pages {
            r matches ThreadsEvent::Page { board_id, page } && board_id == old(list).board_id
                && page == old(list).page - 1
        } else {
            r is Nothing
        },
{
}

/// The keys that move move the selection and nothing else.
pub proof fn law_moving_in_the_thread_list(list: &mut ThreadList, key: Key, r: ThreadsEvent)
    requires
        call_ensures(ThreadList::handle, (list, key), r),
        !old(list).confirm_delete,
        key == Key::Up || key == Key::Down || key == Key::Char('j') || key == Key::Char('k') || key
            == Key::Home || key == Key::End || (key == Key::PageUp && old(list).selected > 0) || (key
            == Key::PageDown && old(list).selected + 1 < old(list).threads@.len()),
    ensures
        r is Nothing,
        goes(
            old(list).selected as int,
            final(list).selected as int,
            old(list).threads@.len() as int,
            key,
        ),
        final(list).threads@ == old(list).threads@,
        final(list).page == old(list).page,
        final(list).board_id == old(list).board_id,
        !final(list).confirm_delete,
{
}

/// x asks a sysop, and then y deletes, the thread that is selected.
pub proof fn law_deleting_the_selected_thread(list: &mut ThreadList, key: Key, r: ThreadsEvent)
    requires
        call_ensures(ThreadList::handle, (list, key), r),
    ensures
        !old(list).confirm_delete && key == Key::Char('x') ==> r is Nothing && final(list).confirm_delete == (old(list).sysop && old(list).threads@.len() > 0) && final(list).selected
            == old(list).selected && final(list).threads@ == old(list).threads@,
        old(list).confirm_delete ==> !final(list).confirm_delete,
        old(list).confirm_delete && key == Key::Char('y') && old(list).selected < old(list).threads@.len() ==> (r matches ThreadsEvent::DeleteThread { thread_id, page } && thread_id
            == old(list).threads@[old(list).selected as int].id && page == old(list).page),
        old(list).confirm_delete && key != Key::Char('y') ==> r is Nothing,
        r is DeleteThread ==> old(list).confirm_delete && key == Key::Char('y'),
{
}

/// The threads that arrive are the ones shown, on the page they are from, and
/// the selection stays where it was if it can.
pub proof fn law_threads_arrive(
    list: &mut ThreadList,
    board_name: String,
    threads: Vec<ThreadInfo>,
    page: usize,
    pages: usize,
    total: usize,
    r: (),
)
    requires
        call_ensures(ThreadList::set, (list, board_name, threads, page, pages, total), r),
    ensures
        final(list).threads@ == threads@,
        final(list).board_name@ == board_name@,
        final(list).page == page,
        final(list).pages == pages,
        final(list).total == total,
        final(list).loaded,
        final(list).board_id == old(list).board_id,
        final(list).sysop == old(list).sysop,
        final(list).member == old(list).member,
        old(list).selected < threads@.len() ==> final(list).selected == old(list).selected,
        threads@.len() > 0 ==> final(list).selected < threads@.len(),
{
}

/// The list shows the threads in their order, each by its title, its author,
/// how many have replied and when, and how much is new; and it marks the one
/// that is selected.
pub proof fn law_threads_are_drawn(list: &ThreadList, i: int, r: ListPane)
    requires
        call_ensures(ThreadList::draw, (list,), r),
        list.loaded,
        0 <= i < list.threads@.len(),
        list.threads@[i].post_count > 0,
    ensures
        r.items@.len() == list.threads@.len(),
        part(r.items@, i, 0) == if list.threads@[i].unread > 0 {
            "* "@
        } else {
            "  "@
        },
        part(r.items@, i, 1) == list.threads@[i].title@,
        part(r.items@, i, 2) == "  by "@ + list.threads@[i].author@ + " · "@ + chars::decimal_int(
            list.threads@[i].post_count - 1,
        ) + " replies · "@ + list.threads@[i].last_post@,
        part(r.items@, i, 3) == if list.threads@[i].unread > 0 {
            "  ["@ + chars::decimal_int(list.threads@[i].unread as int) + " new]"@
        } else {
            Seq::empty()
        },
        r.selected == Some(list.selected),
{
    let models = list@.drawn().items;
    lemma_part(r.items@, models, i, 0);
    lemma_part(r.items@, models, i, 1);
    lemma_part(r.items@, models, i, 2);
    lemma_part(r.items@, models, i, 3);
}

// ------------------------------------------------------------------ one thread

/// r answers this thread, and quotes the last post on the page: its author,
/// its time and its text.
pub proof fn law_replies_quote_the_last_post(view: &mut ThreadView, r: ThreadEvent)
    requires
        call_ensures(ThreadView::handle, (view, Key::Char('r')), r),
        old(view).loaded,
        old(view).delete_prompt is None,
    ensures
        r matches ThreadEvent::Reply { thread_id, title, quote } && thread_id == old(view).thread_id
            && title@ == old(view).title@ && (quote is None <==> old(view).posts@.len() == 0) && (
        quote matches Some((author, created, body)) ==> author@ == old(view).posts@.last().author@
            && created@ == old(view).posts@.last().created@ && body@ == old(view).posts@.last().body@),
        final(view)@ == old(view)@,
{
}

/// Esc and q go back to the page of the list that the thread was opened from.
pub proof fn law_leaving_a_thread(view: &mut ThreadView, key: Key, r: ThreadEvent)
    requires
        call_ensures(ThreadView::handle, (view, key), r),
        old(view).delete_prompt is None,
        key == Key::Esc || key == Key::Char('q'),
    ensures
        r matches ThreadEvent::Back { board_id, list_page } && board_id == old(view).board_id
            && list_page == old(view).list_page,
{
}

/// The arrows turn the pages of this thread, one at a time; Home and End go
/// to its first and last.
pub proof fn law_turning_pages_of_a_thread(view: &mut ThreadView, key: Key, r: ThreadEvent)
    requires
        call_ensures(ThreadView::handle, (view, key), r),
        old(view).delete_prompt is None,
    ensures
        (key == Key::Right || key == Key::Char('>') || key == Key::Char('.')) && old(view).page + 1
            < old(view).pages ==> (r matches ThreadEvent::Goto { thread_id, target } && thread_id
            == old(view).thread_id && target == PageTarget::Page((old(view).page + 1) as usize)),
        (key == Key::Left || key == Key::Char('<') || key == Key::Char(',')) && old(view).page > 0
            ==> (r matches ThreadEvent::Goto { thread_id, target } && thread_id
            == old(view).thread_id && target == PageTarget::Page((old(view).page - 1) as usize)),
        (key == Key::Home || key == Key::Char('g')) && old(view).page > 0 ==> (
        r matches ThreadEvent::Goto { thread_id, target } && thread_id == old(view).thread_id
            && target == PageTarget::Page(0)),
        (key == Key::End || key == Key::Char('G')) && old(view).page + 1 < old(view).pages ==> (
        r matches ThreadEvent::Goto { thread_id, target } && thread_id == old(view).thread_id
            && target == PageTarget::Last),
        (key == Key::Right || key == Key::End) && old(view).page + 1 >= old(view).pages ==> r is Nothing,
        (key == Key::Left || key == Key::Home) && old(view).page == 0 ==> r is Nothing,
{
}

/// Reading on: within a page by a screenful, keeping one line; from the end
/// of a page to the next, from its start to the end of the one before.
pub proof fn law_reading_on(view: &mut ThreadView, key: Key, r: ThreadEvent)
    requires
        call_ensures(ThreadView::handle, (view, key), r),
        old(view).delete_prompt is None,
    ensures
        ({
            let before = old(view)@;
            let last = if before.total_lines > before.page_height {
                before.total_lines - before.page_height
            } else {
                0
            };
            let at = if before.scroll < last {
                before.scroll
            } else {
                last
            };
            let screen = if before.page_height > 2 {
                before.page_height - 1
            } else {
                1
            };
            &&& key == Key::Down || key == Key::Char('j') || key == Key::Enter ==> r is Nothing
                && final(view)@.scroll == if at < last {
                at + 1
            } else {
                last
            }
            &&& key == Key::Up || key == Key::Char('k') ==> r is Nothing && final(view)@.scroll
                == if at > 0 {
                at - 1
            } else {
                0
            }
            &&& key == Key::PageDown || key == Key::Char(' ') ==> if before.scroll >= last
                && before.page + 1 < before.pages {
                r matches ThreadEvent::Goto { thread_id, target } && thread_id == before.thread_id
                    && target == PageTarget::Page((before.page + 1) as usize)
            } else {
                r is Nothing && final(view)@.scroll == if at + screen < last {
                    at + screen
                } else {
                    last
                }
            }
            &&& key == Key::PageUp || key == Key::Char('b') ==> if before.scroll == 0 && before.page
                > 0 {
                r matches ThreadEvent::Goto { thread_id, target } && thread_id == before.thread_id
                    && target == PageTarget::PageEnd((before.page - 1) as usize)
            } else {
                r is Nothing && final(view)@.scroll == if at > screen {
                    at - screen
                } else {
                    0
                }
            }
        }),
        final(view).posts@ == old(view).posts@,
        final(view).thread_id == old(view).thread_id,
{
}

/// A sysop deletes the post whose number was typed, by Enter: the posts are
/// numbered through the whole thread, from one. A number that is not on the
/// page deletes nothing, and neither does Esc.
pub proof fn law_deleting_the_post_of_that_number(
    view: &mut ThreadView,
    digits: String,
    k: int,
    key: Key,
    r: ThreadEvent,
)
    requires
        call_ensures(ThreadView::handle, (view, key), r),
        old(view).delete_prompt == Some(digits),
    ensures
        key == Key::Enter && 0 <= k < old(view).posts@.len() && chars::number(digits@) == old(view).page * 25 + k + 1 ==> (r matches ThreadEvent::DeletePost { post_id, page } && post_id
            == old(view).posts@[k].id && page == old(view).page),
        key == Key::Enter && (chars::number(digits@) <= old(view).page * 25 || chars::number(digits@)
            > old(view).page * 25 + old(view).posts@.len()) ==> r is Nothing,
        key == Key::Enter || key == Key::Esc ==> final(view).delete_prompt is None,
        key != Key::Enter ==> r is Nothing,
        forall|c: char| #[trigger]
            chars::ascii_digit(c) && key == Key::Char(c) && digits@.len() < 6 ==> (final(view).delete_prompt matches Some(now) && now@ == digits@.push(c)),
        key == Key::Backspace && digits@.len() > 0 ==> (final(view).delete_prompt matches Some(now)
            && now@ == digits@.drop_last()),
{
    let before = old(view)@;
    assert(before.first_index() == before.page * 25);
}

/// x asks a sysop for a number, and nobody else.
pub proof fn law_asking_for_a_post_number(view: &mut ThreadView, r: ThreadEvent)
    requires
        call_ensures(ThreadView::handle, (view, Key::Char('x')), r),
        old(view).delete_prompt is None,
        old(view).loaded,
    ensures
        r is Nothing,
        old(view).sysop ==> (final(view).delete_prompt matches Some(now) && now@.len() == 0),
        !old(view).sysop ==> final(view).delete_prompt is None,
{
}

/// A thread that arrives is shown as it is, at its end if that was asked for,
/// else from the first post that is new.
pub proof fn law_threads_are_opened(
    detail: ThreadDetail,
    to_end: bool,
    sysop: bool,
    list_page: usize,
    r: ThreadView,
)
    requires
        call_ensures(ThreadView::from_detail, (detail, to_end, sysop, list_page), r),
    ensures
        r.thread_id == detail.id,
        r.board_id == detail.board_id,
        r.title@ == detail.title@,
        r.board_name@ == detail.board_name@,
        r.posts@ == detail.posts@,
        r.page == detail.page,
        r.pages == detail.pages,
        r.total == detail.total,
        r.loaded,
        r.sysop == sysop,
        r.list_page == list_page,
        r.delete_prompt is None,
        to_end ==> r@.scroll == usize::MAX && r@.jump == 0,
        !to_end ==> r@.scroll == 0,
        !to_end && (forall|i: int| 0 <= i < detail.posts@.len() ==> !(#[trigger] detail.posts@[i]).unread)
            ==> r@.jump == 0,
        forall|k: int|
            !to_end && 0 <= k < detail.posts@.len() && (#[trigger] detail.posts@[k]).unread && (forall|
                i: int,
            |
                0 <= i < k ==> !(#[trigger] detail.posts@[i]).unread) ==> r@.jump == k + 1,
{
    let posts = detail.posts@;
    lemma_first_unread(posts);
}

proof fn lemma_first_unread(posts: Seq<PostInfo>)
    ensures
        0 <= boards::first_unread(posts) <= posts.len(),
        boards::first_unread(posts) < posts.len() ==> posts[boards::first_unread(posts)].unread,
        forall|i: int|
            0 <= i < boards::first_unread(posts) ==> !(#[trigger] posts[i]).unread,
    decreases posts.len(),
{
    if posts.len() > 0 {
        let front = posts.drop_last();
        lemma_first_unread(front);
        assert forall|i: int| 0 <= i < boards::first_unread(posts) implies !(
        #[trigger] posts[i]).unread by {
            if i < front.len() {
                assert(front[i] == posts[i]);
            }
        }
    }
}

proof fn lemma_posts_lines(posts: Seq<PostInfo>, first: int, width: int, k: int) -> (at: int)
    requires
        0 <= k < posts.len(),
    ensures
        ({
            let lines = boards::posts_lines(posts, first, width);
            let body = text::wrapped(posts[k].body@, width);
            &&& 0 <= at
            &&& at + body.len() + 1 < lines.len()
            &&& lines[at] == boards::post_heading(posts[k], first + k + 1)
            &&& forall|j: int|
                0 <= j < body.len() ==> #[trigger] lines[at + 1 + j] == paint::plain_line(body[j])
        }),
    decreases posts.len(),
{
    let front = posts.drop_last();
    let above = boards::posts_lines(front, first, width);
    let lines = boards::posts_lines(posts, first, width);
    let body = text::wrapped(posts[k].body@, width);
    if k < front.len() {
        let at = lemma_posts_lines(front, first, width, k);
        assert(front[k] == posts[k]);
        assert(lines[at] == above[at]);
        assert forall|j: int| 0 <= j < body.len() implies #[trigger] lines[at + 1 + j]
            == paint::plain_line(body[j]) by {
            assert(lines[at + 1 + j] == above[at + 1 + j]);
        }
        at
    } else {
        let at = above.len() as int;
        let mine = boards::post_lines(posts.last(), first + posts.len(), width);
        assert(lines =~= above + mine);
        assert(lines[at] == mine[0]);
        assert forall|j: int| 0 <= j < body.len() implies #[trigger] lines[at + 1 + j]
            == paint::plain_line(body[j]) by {
            assert(lines[at + 1 + j] == mine[1 + j]);
        }
        at
    }
}

/// A thread shows each of its posts: a heading with its number in the thread,
/// its author and when it was written, and below it the text, wrapped to the
/// width.
pub proof fn law_posts_are_drawn(
    view: &mut ThreadView,
    width: usize,
    height: usize,
    k: int,
    r: TextPane,
)
    requires
        call_ensures(ThreadView::draw, (view, width, height), r),
        old(view).loaded,
        0 <= k < old(view).posts@.len(),
    ensures
        exists|at: int|
            {
                let post = old(view).posts@[k];
                let body = text::wrapped(post.body@, width as int);
                &&& 0 <= at
                &&& at + body.len() + 1 < r.lines@.len()
                &&& #[trigger] part(r.lines@, at, 0) == "#"@ + chars::decimal(
                    (old(view).page * 25 + k + 1) as nat,
                ) + " "@ + post.author@
                &&& part(r.lines@, at, 1) == if post.author_is_sysop {
                    " [sysop]"@
                } else {
                    Seq::empty()
                }
                &&& part(r.lines@, at, 2) == "  "@ + post.created@
                &&& forall|j: int|
                    0 <= j < body.len() ==> #[trigger] part(r.lines@, at + 1 + j, 0) == body[j]
            },
        final(view).posts@ == old(view).posts@,
        final(view).page == old(view).page,
{
    let before = old(view)@;
    assert(before.first_index() == before.page * 25);
    let post = before.posts[k];
    let body = text::wrapped(post.body@, width as int);
    let lines = before.lines(width as int);
    let own = boards::posts_lines(before.posts, before.first_index(), width as int);
    assert(lines =~= own);
    let at = lemma_posts_lines(before.posts, before.first_index(), width as int, k);
    lemma_part(r.lines@, lines, at, 0);
    lemma_part(r.lines@, lines, at, 1);
    lemma_part(r.lines@, lines, at, 2);
    assert forall|j: int| 0 <= j < body.len() implies #[trigger] part(r.lines@, at + 1 + j, 0)
        == body[j] by {
        assert(lines[at + 1 + j] == paint::plain_line(body[j]));
        lemma_part(r.lines@, lines, at + 1 + j, 0);
    }
}

/// The name of the board and the title of the thread stand above it.
pub proof fn law_threads_are_titled(
    view: &mut ThreadView,
    width: usize,
    height: usize,
    r: TextPane,
)
    requires
        call_ensures(ThreadView::draw, (view, width, height), r),
    ensures
        (old(view).board_name@ + " › "@ + old(view).title@).is_prefix_of(r.title@),
        r.scroll <= r.lines@.len(),
        final(view)@.scroll == r.scroll,
        final(view)@.total_lines == r.lines@.len(),
        final(view)@.page_height == height,
        final(view)@.jump == 0,
        old(view)@.jump == 0 && old(view)@.scroll + height <= r.lines@.len() ==> r.scroll == old(view)@.scroll,
        old(view)@.jump == 0 && old(view)@.scroll + height > r.lines@.len() && height
            <= r.lines@.len() ==> r.scroll == r.lines@.len() - height,
        height > r.lines@.len() && old(view)@.scroll >= 0 ==> r.scroll == 0,
{
    let before = old(view)@;
    let name = before.board_name + " › "@ + before.title;
    assert(r.title@.subrange(0, name.len() as int) =~= name);
}

proof fn lemma_lines_before(posts: Seq<PostInfo>, first: int, width: int, k: int)
    requires
        0 <= k < posts.len(),
    ensures
        ({
            let lines = boards::posts_lines(posts, first, width);
            let at = boards::posts_lines(posts.take(k), first, width).len();
            &&& at < lines.len()
            &&& lines[at as int] == boards::post_heading(posts[k], first + k + 1)
        }),
    decreases posts.len(),
{
    let front = posts.drop_last();
    let above = boards::posts_lines(front, first, width);
    let lines = boards::posts_lines(posts, first, width);
    let mine = boards::post_lines(posts.last(), first + posts.len(), width);
    assert(lines =~= above + mine);
    if k < front.len() {
        lemma_lines_before(front, first, width, k);
        assert(front.take(k) =~= posts.take(k));
        assert(front[k] == posts[k]);
    } else {
        assert(posts.take(k) =~= front);
        assert(mine[0] == boards::post_heading(posts[k], first + k + 1));
    }
}

proof fn lemma_lines_grow(posts: Seq<PostInfo>, first: int, width: int, k: int, l: int)
    requires
        0 <= k < l <= posts.len(),
    ensures
        boards::posts_lines(posts.take(k), first, width).len() < boards::posts_lines(
            posts.take(l),
            first,
            width,
        ).len(),
{
    let some = posts.take(l);
    lemma_lines_before(some, first, width, k);
    assert(some.take(k) =~= posts.take(k));
}

/// The posts of a thread stand below each other in their order, and a thread
/// that is opened at a post is shown from the heading of that post on, if
/// there is enough below it to fill the screen.
pub proof fn law_posts_are_drawn_in_order(
    view: &mut ThreadView,
    width: usize,
    height: usize,
    k: int,
    l: int,
    r: TextPane,
)
    requires
        call_ensures(ThreadView::draw, (view, width, height), r),
        old(view).loaded,
        0 <= k < l < old(view).posts@.len(),
    ensures
        exists|at: int, bt: int|
            {
                &&& 0 <= at < bt < r.lines@.len()
                &&& #[trigger] part(r.lines@, at, 0) == "#"@ + chars::decimal(
                    (old(view).page * 25 + k + 1) as nat,
                ) + " "@ + old(view).posts@[k].author@
                &&& #[trigger] part(r.lines@, bt, 0) == "#"@ + chars::decimal(
                    (old(view).page * 25 + l + 1) as nat,
                ) + " "@ + old(view).posts@[l].author@
                &&& old(view)@.jump == k + 1 && at + height <= r.lines@.len() ==> r.scroll == at
                &&& old(view)@.jump == l + 1 && bt + height <= r.lines@.len() ==> r.scroll == bt
            },
{
    let before = old(view)@;
    let w = width as int;
    let first = before.first_index();
    assert(first == before.page * 25);
    let posts = before.posts;
    let lines = before.lines(w);
    let own = boards::posts_lines(posts, first, w);
    assert(lines =~= own);
    let at = boards::posts_lines(posts.take(k), first, w).len() as int;
    let bt = boards::posts_lines(posts.take(l), first, w).len() as int;
    lemma_lines_before(posts, first, w, k);
    lemma_lines_before(posts, first, w, l);
    lemma_lines_grow(posts, first, w, k, l);
    lemma_part(r.lines@, lines, at, 0);
    lemma_part(r.lines@, lines, bt, 0);
}

} // verus!
