use rust_bbs::boards::opens_at_end;
use rust_bbs::db::POSTS_PER_PAGE;
use rust_bbs::ui::boards::{
    move_selection, BoardList, BoardsEvent, ThreadEvent, ThreadList, ThreadView, ThreadsEvent,
};
use rust_bbs::ui::input::Key;
use rust_bbs::ui::paint::Line;
use rust_bbs::ui::{BoardInfo, PageTarget, PostInfo, ThreadDetail, ThreadInfo};

fn threads(n: usize) -> Vec<ThreadInfo> {
    (0..n as i64)
        .map(|id| ThreadInfo {
            id,
            title: format!("T{id}"),
            author: "a".into(),
            post_count: 1,
            last_post: String::new(),
            unread: 0,
        })
        .collect()
}

fn list(page: usize, pages: usize, rows: usize) -> ThreadList {
    let mut l = ThreadList::loading(1, false, true);
    l.set("General".into(), threads(rows), page, pages, pages * 25);
    l
}

fn view(page: usize, pages: usize, sysop: bool) -> ThreadView {
    let posts = (0..POSTS_PER_PAGE as i64)
        .map(|i| PostInfo {
            id: 1000 + page as i64 * 100 + i,
            author: "a".into(),
            author_is_sysop: false,
            body: "x".into(),
            created: String::new(),
            unread: false,
        })
        .collect();
    let mut v = ThreadView::from_detail(
        ThreadDetail {
            id: 9,
            board_id: 1,
            board_name: "General".into(),
            title: "T".into(),
            posts,
            page,
            pages,
            total: pages * POSTS_PER_PAGE,
        },
        false,
        sysop,
        2,
    );
    v.total_lines.set(100);
    v.page_height.set(20);
    v
}

fn goto(target: PageTarget) -> impl Fn(&ThreadEvent) -> bool {
    move |e| matches!(e, ThreadEvent::Goto { thread_id: 9, target: t } if *t == target)
}

fn text(line: &Line) -> String {
    line.spans.iter().map(|s| s.text.as_str()).collect()
}

#[test]
fn thread_list_page_keys_stay_within_bounds() {
    let mut l = list(1, 3, 25);
    assert!(matches!(l.handle(Key::Right), ThreadsEvent::Page { board_id: 1, page: 2 }));
    assert!(matches!(l.handle(Key::Left), ThreadsEvent::Page { board_id: 1, page: 0 }));

    let mut first = list(0, 3, 25);
    assert!(matches!(first.handle(Key::Left), ThreadsEvent::Nothing), "nothing before page 1");
    assert!(matches!(first.handle(Key::PageUp), ThreadsEvent::Nothing));

    let mut last = list(2, 3, 25);
    assert!(matches!(last.handle(Key::Right), ThreadsEvent::Nothing), "nothing after the last page");
    assert!(matches!(last.handle(Key::End), ThreadsEvent::Nothing));
    assert!(matches!(last.handle(Key::PageDown), ThreadsEvent::Nothing), "already at the end");

    let mut single = list(0, 1, 5);
    assert!(matches!(single.handle(Key::Right), ThreadsEvent::Nothing));
}

#[test]
fn thread_list_pgdn_and_pgup_continue_across_pages_only_at_the_edges() {
    let mut l = list(0, 3, 25);
    assert!(matches!(l.handle(Key::PageDown), ThreadsEvent::Nothing), "moves the selection first");
    assert_eq!(l.selected, 10);
    l.handle(Key::PageDown);
    l.handle(Key::PageDown);
    assert_eq!(l.selected, 24);
    assert!(matches!(l.handle(Key::PageDown), ThreadsEvent::Page { page: 1, .. }));

    let mut mid = list(1, 3, 25);
    assert!(matches!(mid.handle(Key::PageUp), ThreadsEvent::Page { page: 0, .. }), "already at the top row");
}

#[test]
fn opening_and_actions_remember_the_list_page() {
    let mut l = list(2, 3, 25);
    assert!(matches!(l.handle(Key::Enter), ThreadsEvent::Open { thread_id: 0, list_page: 2, .. }));
    assert!(matches!(l.handle(Key::Char('m')), ThreadsEvent::MarkBoardRead { page: 2, .. }));
}

#[test]
fn reading_on_continues_onto_the_next_page_at_the_bottom() {
    let mut v = view(0, 3, false);
    assert!(matches!(v.handle(Key::Char(' ')), ThreadEvent::Nothing));
    assert!(v.scroll.get() > 0);
    v.scroll.set(usize::MAX);
    assert!(goto(PageTarget::Page(1))(&v.handle(Key::Char(' '))));
    let mut last = view(2, 3, false);
    last.scroll.set(usize::MAX);
    assert!(matches!(last.handle(Key::Char(' ')), ThreadEvent::Nothing));
}

#[test]
fn paging_back_lands_at_the_bottom_of_the_previous_page() {
    let mut v = view(1, 3, false);
    v.scroll.set(5);
    assert!(matches!(v.handle(Key::PageUp), ThreadEvent::Nothing), "scrolls up first");
    v.scroll.set(0);
    assert!(goto(PageTarget::PageEnd(0))(&v.handle(Key::PageUp)));
    let mut first = view(0, 3, false);
    assert!(matches!(first.handle(Key::PageUp), ThreadEvent::Nothing));
}

#[test]
fn explicit_page_keys_and_first_last() {
    let mut v = view(1, 3, false);
    assert!(goto(PageTarget::Page(2))(&v.handle(Key::Right)));
    assert!(goto(PageTarget::Page(0))(&v.handle(Key::Left)));
    assert!(goto(PageTarget::Page(0))(&v.handle(Key::Char('g'))));
    assert!(goto(PageTarget::Last)(&v.handle(Key::Char('G'))));

    let mut first = view(0, 3, false);
    assert!(matches!(first.handle(Key::Left), ThreadEvent::Nothing));
    first.scroll.set(40);
    assert!(matches!(first.handle(Key::Char('g')), ThreadEvent::Nothing), "on page 1, g scrolls to the top");
    assert_eq!(first.scroll.get(), 0);

    let mut last = view(2, 3, false);
    assert!(matches!(last.handle(Key::Right), ThreadEvent::Nothing));
    assert!(matches!(last.handle(Key::Char('G')), ThreadEvent::Nothing), "on the last page, G scrolls to the bottom");
    assert_eq!(last.scroll.get(), usize::MAX);
}

#[test]
fn back_and_reply_carry_the_right_context() {
    let mut v = view(1, 3, false);
    assert!(matches!(v.handle(Key::Esc), ThreadEvent::Back { board_id: 1, list_page: 2 }));
    let event = v.handle(Key::Char('r'));
    assert!(matches!(&event, ThreadEvent::Reply { thread_id: 9, .. }));
    assert!(matches!(&event, ThreadEvent::Reply { quote: Some((a, c, b)), .. }
        if a == "a" && c.is_empty() && b == "x"));
}

#[test]
fn reply_quotes_the_last_post_on_the_page_not_the_first() {
    let mut v = view(0, 1, false);
    v.posts[0].body = "first post".into();
    v.posts[0].author = "alice".into();
    let last = v.posts.len() - 1;
    v.posts[last].body = "most recent post".into();
    v.posts[last].author = "bob".into();
    let event = v.handle(Key::Char('r'));
    assert!(matches!(&event, ThreadEvent::Reply { quote: Some((a, _, b)), .. }
        if a == "bob" && b == "most recent post"));
}

#[test]
fn delete_prompt_uses_thread_wide_numbers_on_this_page_only() {
    let mut v = view(1, 3, true);
    let ids: Vec<i64> = v.posts.iter().map(|p| p.id).collect();

    v.handle(Key::Char('x'));
    for c in "27".chars() {
        v.handle(Key::Char(c));
    }
    assert!(matches!(v.handle(Key::Enter), ThreadEvent::DeletePost { post_id, page: 1 } if post_id == ids[1]));

    v.handle(Key::Char('x'));
    v.handle(Key::Char('3'));
    assert!(matches!(v.handle(Key::Enter), ThreadEvent::Nothing));
    v.handle(Key::Char('x'));
    for c in "60".chars() {
        v.handle(Key::Char(c));
    }
    assert!(matches!(v.handle(Key::Enter), ThreadEvent::Nothing));
}

#[test]
fn only_sysops_get_the_delete_keys() {
    let mut l = list(0, 1, 3);
    l.handle(Key::Char('x'));
    assert!(matches!(l.handle(Key::Char('y')), ThreadsEvent::Nothing));
    let mut v = view(0, 1, false);
    v.handle(Key::Char('x'));
    assert!(v.delete_prompt.is_none());

    let mut l = ThreadList::loading(1, true, true);
    l.set("General".into(), threads(3), 0, 1, 3);
    l.handle(Key::Down);
    l.handle(Key::Char('x'));
    assert!(l.confirm_delete);
    assert!(matches!(l.handle(Key::Char('n')), ThreadsEvent::Nothing));
    l.handle(Key::Char('x'));
    assert!(matches!(l.handle(Key::Char('y')), ThreadsEvent::DeleteThread { thread_id: 1, page: 0 }));
}

#[test]
fn selection_stays_on_the_list() {
    let mut at: usize = 0;
    move_selection(&mut at, 3, Key::Up);
    assert_eq!(at, 0);
    move_selection(&mut at, 3, Key::End);
    assert_eq!(at, 2);
    move_selection(&mut at, 3, Key::Down);
    assert_eq!(at, 2);
    move_selection(&mut at, 30, Key::PageDown);
    assert_eq!(at, 12);
    move_selection(&mut at, 30, Key::PageUp);
    assert_eq!(at, 2);
    move_selection(&mut at, 0, Key::Down);
    assert_eq!(at, 0);
}

fn board(id: i64, name: &str, unread: i64) -> BoardInfo {
    BoardInfo {
        id,
        name: name.into(),
        description: "About it".into(),
        thread_count: 2,
        unread_threads: unread,
    }
}

#[test]
fn boards_are_listed_and_opened() {
    let mut b = BoardList::new(false);
    assert_eq!(text(&b.draw().items[0]), "Loading…");
    b.set(vec![]);
    assert_eq!(text(&b.draw().items[0]), "(no boards)");
    assert_eq!(b.draw().selected, None);
    b.set(vec![board(5, "General", 0), board(6, "Tech", 3)]);
    b.handle(Key::Char('j'));
    assert!(matches!(b.handle(Key::Enter), BoardsEvent::Open(6)));
    assert!(text(&b.draw().items[1]).contains("Tech"));
    assert_eq!(b.draw().selected, Some(1));
    assert!(matches!(b.handle(Key::Char('n')), BoardsEvent::Nothing));
    assert!(matches!(b.handle(Key::Esc), BoardsEvent::Back));
}

#[test]
fn sysops_create_and_describe_boards() {
    let mut b = BoardList::new(true);
    b.set(vec![board(5, "General", 0)]);
    b.handle(Key::Char('n'));
    for c in "Retro".chars() {
        b.handle(Key::Char(c));
    }
    b.handle(Key::Enter);
    for c in "Old".chars() {
        b.handle(Key::Char(c));
    }
    assert!(matches!(b.handle(Key::Enter), BoardsEvent::CreateBoard { ref name, ref description }
        if name == "Retro" && description == "Old"));
    b.fail("no".into());
    assert!(matches!(b.handle(Key::Esc), BoardsEvent::Nothing));
    b.handle(Key::Char('e'));
    b.handle(Key::Backspace);
    assert!(matches!(b.handle(Key::Enter), BoardsEvent::UpdateDescription { board_id: 5, ref description }
        if description == "About i"));
}

#[test]
fn a_board_needs_a_name() {
    let mut b = BoardList::new(true);
    b.set(vec![]);
    b.handle(Key::Char('n'));
    b.handle(Key::Enter);
    assert!(matches!(b.handle(Key::Enter), BoardsEvent::Nothing));
    for c in "ok!".chars() {
        b.handle(Key::Char(c));
    }
    b.handle(Key::Tab);
    assert!(matches!(b.handle(Key::Enter), BoardsEvent::CreateBoard { .. }));
}

#[test]
fn the_thread_list_names_its_page() {
    let l = list(1, 3, 25);
    assert_eq!(l.draw().title, "Board: General · page 2/3 · 75 threads");
    let l = list(0, 1, 5);
    assert_eq!(l.draw().title, "Board: General · 25 threads");
    assert!(text(&l.draw().items[0]).contains("T0"));
}

#[test]
fn drawing_a_thread_clamps_the_scroll_and_numbers_posts() {
    let mut v = view(1, 3, false);
    v.scroll.set(usize::MAX);
    let pane = v.draw(40, 10);
    assert_eq!(pane.scroll, pane.lines.len() - 10);
    assert_eq!(v.scroll.get(), pane.scroll);
    assert!(pane.lines.iter().any(|l| text(l).contains("#26")));
    assert!(!pane.lines.iter().any(|l| text(l).contains("#25 ")));
}

#[test]
fn opening_a_thread_jumps_to_the_first_unread_post() {
    let mut detail = ThreadDetail {
        id: 9,
        board_id: 1,
        board_name: "General".into(),
        title: "T".into(),
        posts: vec![],
        page: 0,
        pages: 1,
        total: 3,
    };
    for i in 0..3 {
        detail.posts.push(PostInfo {
            id: i,
            author: "a".into(),
            author_is_sysop: false,
            body: "one\ntwo\nthree\nfour".into(),
            created: String::new(),
            unread: i > 0,
        });
    }
    let mut v = ThreadView::from_detail(detail, false, false, 0);
    let pane = v.draw(40, 6);
    assert!(text(&pane.lines[pane.scroll]).contains("#2"));
}

#[test]
fn threads_open_at_the_end_when_paging_back_or_asked_for_the_last() {
    assert!(opens_at_end(&PageTarget::Last));
    assert!(opens_at_end(&PageTarget::PageEnd(2)));
    assert!(!opens_at_end(&PageTarget::Page(2)));
    assert!(!opens_at_end(&PageTarget::Smart));
}
