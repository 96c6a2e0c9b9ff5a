//! Laws of administration: the rules of the database, and what the tool of
//! the administrators shows and says.

use vstd::prelude::*;

use crate::admin;
use crate::admin::RoleChange;
use crate::auth;
use crate::boards;
use crate::chars;
use crate::content;
use crate::db;
use crate::db::{
    Account, BoardRecord, DbError, KeyRecord, PostDeletion, PostRecord, Role, Stats, ThreadHead,
    ThreadRecord, ThreadUpdate, UserSummary,
};
use crate::laws::content as clean;

verus! {

// ------------------------------------------------------------------ the database

/// A user has at most ten keys, a thread at most two hundred posts.
pub proof fn law_keys_and_posts_have_their_number(
    keys: i64,
    posts: Option<i64>,
    key: Result<(), DbError>,
    post: Result<(), DbError>,
)
    requires
        call_ensures(db::check_key_slot, (keys,), key),
        call_ensures(db::check_post_slot, (posts,), post),
    ensures
        keys < 10 ==> key is Ok,
        keys >= 10 ==> key == Err::<(), DbError>(DbError::LimitReached),
        posts is None ==> post == Err::<(), DbError>(DbError::NotFound),
        posts matches Some(n) ==> n < 200 ==> post is Ok,
        posts matches Some(n) ==> n >= 200 ==> post == Err::<(), DbError>(DbError::LimitReached),
{
}

/// An empty thread goes with its last post; one with posts left stays, with
/// these counted. A change of nothing found nothing. A board with threads is
/// deleted only by force.
pub proof fn law_what_deleting_takes_along(
    thread_id: i64,
    board_id: i64,
    left: i64,
    deletion: (PostDeletion, ThreadUpdate),
    rows: usize,
    changed: Result<(), DbError>,
    found: i64,
    threads: i64,
    force: bool,
    board: Result<(), DbError>,
)
    requires
        call_ensures(db::after_post_deleted, (thread_id, board_id, left), deletion),
        call_ensures(db::check_changed, (rows,), changed),
        call_ensures(db::check_board_deletion, (found, threads, force), board),
    ensures
        deletion.0.thread_id == thread_id,
        deletion.0.board_id == board_id,
        deletion.0.thread_deleted <==> left == 0,
        deletion.1 is Delete <==> left == 0,
        left != 0 ==> deletion.1 == (ThreadUpdate::Recount { posts: left }),
        changed is Ok <==> rows > 0,
        changed is Err ==> changed->Err_0 == DbError::NotFound,
        board is Ok <==> found != 0 && (threads <= 0 || force),
        board is Err && found == 0 ==> board->Err_0 == DbError::NotFound,
        board is Err && found != 0 ==> board->Err_0 == DbError::NotEmpty,
{
}

/// Roles are stored as "user" and "sysop". Only "sysop" makes a sysop.
pub proof fn law_roles_are_stored_by_name(
    role: Role,
    name: &'static str,
    text: &str,
    parsed: Option<Role>,
    stored: Role,
)
    requires
        call_ensures(Role::as_str, (role,), name),
        call_ensures(Role::parse, (text,), parsed),
        call_ensures(Role::from_db, (text,), stored),
    ensures
        role == Role::User ==> name@ == "user"@,
        role == Role::Sysop ==> name@ == "sysop"@,
        parsed == Some(Role::Sysop) <==> text@ == "sysop"@,
        parsed == Some(Role::User) <==> text@ == "user"@,
        stored == Role::Sysop <==> text@ == "sysop"@,
        text@ == name@ ==> parsed == Some(role) && stored == role,
{
    reveal_strlit("user");
    reveal_strlit("sysop");
    assert("user"@.len() != "sysop"@.len());
}

/// What the codes of the database mean, and how errors are put in words.
pub proof fn law_errors_of_the_database(
    code: Option<i32>,
    e: DbError,
    error: DbError,
    text: &'static str,
    what: &str,
    told: String,
)
    requires
        call_ensures(DbError::from_code, (code,), e),
        call_ensures(DbError::text, (error,), text),
        call_ensures(admin::db_failure, (what, error), told),
    ensures
        e == match code {
            Some(2067) | Some(1555) => DbError::Duplicate,
            Some(787) => DbError::NotFound,
            _ => DbError::Other,
        },
        text@ == match error {
            DbError::Duplicate => "already exists"@,
            DbError::LimitReached => "limit reached"@,
            DbError::NotFound => "not found"@,
            DbError::NotEmpty => "not empty"@,
            DbError::Other => "database error"@,
        },
        told@ == what@ + ": "@ + text@,
{
}

// -------------------------------------------------------------------- the tables

/// A line shows a text: it stands somewhere in it.
pub open spec fn shows(line: Seq<char>, text: Seq<char>) -> bool {
    exists|before: Seq<char>, after: Seq<char>| line == #[trigger] (before + text + after)
}

proof fn lemma_shows(before: Seq<char>, text: Seq<char>, after: Seq<char>, line: Seq<char>)
    requires
        line == before + text + after,
    ensures
        shows(line, text),
{
}

proof fn lemma_both_shown(
    a: Seq<char>,
    x: Seq<char>,
    b: Seq<char>,
    y: Seq<char>,
    c: Seq<char>,
    line: Seq<char>,
)
    requires
        line == a + x + b + y + c,
    ensures
        shows(line, x),
        shows(line, y),
        c.is_suffix_of(line),
{
    assert(line =~= a + x + (b + y + c));
    lemma_shows(a, x, b + y + c, line);
    lemma_shows(a + x + b, y, c, line);
    assert(c =~= line.subrange(line.len() - c.len(), line.len() as int));
}

proof fn lemma_shows_itself(text: Seq<char>)
    ensures
        shows(text, text),
{
    let none = Seq::<char>::empty();
    assert(text =~= none + text + none);
    lemma_shows(none, text, none, text);
}

proof fn lemma_shows_within(line: Seq<char>, cell: Seq<char>, text: Seq<char>)
    requires
        shows(line, cell),
        shows(cell, text),
    ensures
        shows(line, text),
{
    let (a, b) = choose|a: Seq<char>, b: Seq<char>| line == #[trigger] (a + cell + b);
    let (c, d) = choose|c: Seq<char>, d: Seq<char>| cell == #[trigger] (c + text + d);
    assert(line =~= (a + c) + text + (d + b));
    lemma_shows(a + c, text, d + b, line);
}

proof fn lemma_padded(text: Seq<char>, width: nat)
    ensures
        shows(chars::padded(text, width), text),
        shows(chars::right_aligned(text, width), text),
{
    lemma_shows_itself(text);
    if text.len() < width {
        let fill = chars::spaces((width - text.len()) as nat);
        let none = Seq::<char>::empty();
        assert(text + fill =~= none + text + fill);
        lemma_shows(none, text, fill, text + fill);
        assert(fill + text =~= fill + text + none);
        lemma_shows(fill, text, none, fill + text);
    }
}

proof fn lemma_cell(cells: Seq<Seq<char>>, sep: Seq<char>, k: int)
    requires
        0 <= k < cells.len(),
    ensures
        shows(chars::joined(cells, sep), cells[k]),
    decreases cells.len(),
{
    let line = chars::joined(cells, sep);
    let none = Seq::<char>::empty();
    if cells.len() == 1 {
        lemma_shows_itself(cells[0]);
    } else {
        let front = cells.drop_last();
        let head = chars::joined(front, sep);
        if k == cells.len() - 1 {
            assert(line =~= (head + sep) + cells[k] + none);
            lemma_shows(head + sep, cells[k], none, line);
        } else {
            lemma_cell(front, sep, k);
            assert(front[k] == cells[k]);
            assert(line =~= none + head + (sep + cells.last()));
            lemma_shows(none, head, sep + cells.last(), line);
            lemma_shows_within(line, head, cells[k]);
        }
    }
}

/// A text in a padded cell of a row is shown.
proof fn lemma_in_row(cells: Seq<Seq<char>>, k: int, text: Seq<char>)
    requires
        0 <= k < cells.len(),
        shows(cells[k], text),
    ensures
        shows(admin::row_of(cells), text),
{
    lemma_cell(cells, "  "@, k);
    lemma_shows_within(admin::row_of(cells), cells[k], text);
}

proof fn lemma_line(lines: Seq<String>, k: int)
    requires
        0 <= k < chars::string_texts(lines).len(),
    ensures
        lines.len() == chars::string_texts(lines).len(),
        chars::string_texts(lines)[k] == lines[k]@,
{
}

/// The boards are listed in their order, each with its number, its place, its
/// name, its threads and its description.
pub proof fn law_every_board_has_a_line(list: &Vec<BoardRecord>, i: int, r: Vec<String>)
    requires
        call_ensures(admin::list_boards, (list,), r),
        0 <= i < list@.len(),
    ensures
        r@.len() == list@.len() + 1,
        shows(r@[i + 1]@, chars::decimal_int(list@[i].id as int)),
        shows(r@[i + 1]@, chars::decimal_int(list@[i].position as int)),
        shows(r@[i + 1]@, list@[i].name@),
        shows(r@[i + 1]@, chars::decimal_int(list@[i].thread_count as int)),
        shows(r@[i + 1]@, list@[i].description@),
{
    let b = list@[i];
    lemma_line(r@, i + 1);
    assert(r@[i + 1]@ == admin::board_row(b));
    let cells = seq![
        admin::numeral(b.id as int, 4),
        admin::numeral(b.position as int, 3),
        chars::padded(b.name@, 16),
        admin::numeral(b.thread_count as int, 7),
        b.description@,
    ];
    lemma_padded(chars::decimal_int(b.id as int), 4);
    lemma_padded(chars::decimal_int(b.position as int), 3);
    lemma_padded(b.name@, 16);
    lemma_padded(chars::decimal_int(b.thread_count as int), 7);
    lemma_shows_itself(b.description@);
    lemma_in_row(cells, 0, chars::decimal_int(b.id as int));
    lemma_in_row(cells, 1, chars::decimal_int(b.position as int));
    lemma_in_row(cells, 2, b.name@);
    lemma_in_row(cells, 3, chars::decimal_int(b.thread_count as int));
    lemma_in_row(cells, 4, b.description@);
}

/// The users are listed in their order, each with their number, name, role,
/// posts, keys and day of joining, and with whether they are suspended.
#[verifier::rlimit(50)]
pub proof fn law_every_user_has_a_line(list: &Vec<UserSummary>, i: int, r: Vec<String>)
    requires
        call_ensures(admin::list_users, (list,), r),
        0 <= i < list@.len(),
    ensures
        r@.len() == list@.len() + 1,
        shows(r@[i + 1]@, chars::decimal_int(list@[i].id as int)),
        shows(r@[i + 1]@, list@[i].username@),
        list@[i].role == Role::Sysop ==> shows(r@[i + 1]@, "sysop"@),
        list@[i].role == Role::User ==> shows(r@[i + 1]@, "user"@),
        list@[i].banned ==> shows(r@[i + 1]@, "banned"@),
        !list@[i].banned ==> shows(r@[i + 1]@, "ok"@),
        shows(r@[i + 1]@, chars::decimal_int(list@[i].posts as int)),
        shows(r@[i + 1]@, chars::decimal_int(list@[i].keys as int)),
        shows(r@[i + 1]@, list@[i].created@),
{
    let u = list@[i];
    lemma_line(r@, i + 1);
    assert(r@[i + 1]@ == admin::user_row(u));
    let status = if u.banned {
        "banned"@
    } else {
        "ok"@
    };
    let cells = seq![
        admin::numeral(u.id as int, 4),
        chars::padded(u.username@, 16),
        chars::padded(u.role.name(), 6),
        chars::padded(status, 7),
        admin::numeral(u.posts as int, 5),
        admin::numeral(u.keys as int, 4),
        u.created@,
    ];
    lemma_padded(chars::decimal_int(u.id as int), 4);
    lemma_padded(u.username@, 16);
    lemma_padded(u.role.name(), 6);
    lemma_padded(status, 7);
    lemma_padded(chars::decimal_int(u.posts as int), 5);
    lemma_padded(chars::decimal_int(u.keys as int), 4);
    lemma_shows_itself(u.created@);
    lemma_in_row(cells, 0, chars::decimal_int(u.id as int));
    lemma_in_row(cells, 1, u.username@);
    lemma_in_row(cells, 2, u.role.name());
    lemma_in_row(cells, 3, status);
    lemma_in_row(cells, 4, chars::decimal_int(u.posts as int));
    lemma_in_row(cells, 5, chars::decimal_int(u.keys as int));
    lemma_in_row(cells, 6, u.created@);
}

/// The threads of a board are listed under its name in their order, each with
/// its number, author, posts and last post, and with its title where that is
/// a line of at most forty characters. A board that is not there is named.
#[verifier::rlimit(50)]
pub proof fn law_every_thread_has_a_line(
    board_id: i64,
    name: Option<String>,
    list: &Vec<ThreadRecord>,
    i: int,
    r: Result<Vec<String>, String>,
)
    requires
        call_ensures(admin::list_threads, (board_id, name, list), r),
    ensures
        name is None ==> (r matches Err(e) && e@ == "no such board: "@ + chars::decimal_int(
            board_id as int,
        )),
        name is Some ==> r is Ok && r->Ok_0@.len() == list@.len() + 2 && shows(
            r->Ok_0@[0]@,
            name->Some_0@,
        ),
        name is Some && 0 <= i < list@.len() ==> {
            let line = r->Ok_0@[i + 2]@;
            &&& shows(line, chars::decimal_int(list@[i].id as int))
            &&& clean::clean(list@[i].title@) && 1 <= list@[i].title@.len() <= 40 ==> shows(
                line,
                list@[i].title@,
            )
            &&& shows(line, list@[i].author@)
            &&& shows(line, chars::decimal_int(list@[i].post_count as int))
            &&& shows(line, list@[i].last_post@)
        },
{
    if name is Some {
        let lines = r->Ok_0@;
        lemma_line(lines, 0);
        let none = Seq::<char>::empty();
        let front = "Board "@ + chars::decimal_int(board_id as int) + ": "@;
        assert(lines[0]@ =~= front + name->Some_0@ + none);
        lemma_shows(front, name->Some_0@, none, lines[0]@);
        if 0 <= i < list@.len() {
            let t = list@[i];
            lemma_line(lines, i + 2);
            assert(lines[i + 2]@ == admin::thread_row(t));
            let title = admin::first_line_of(t.title@, 40);
            let cells = seq![
                admin::numeral(t.id as int, 5),
                chars::padded(title, 40),
                chars::padded(t.author@, 16),
                admin::numeral(t.post_count as int, 5),
                t.last_post@,
            ];
            lemma_padded(chars::decimal_int(t.id as int), 5);
            lemma_padded(title, 40);
            lemma_padded(t.author@, 16);
            lemma_padded(chars::decimal_int(t.post_count as int), 5);
            lemma_shows_itself(t.last_post@);
            lemma_in_row(cells, 0, chars::decimal_int(t.id as int));
            lemma_in_row(cells, 1, title);
            lemma_in_row(cells, 2, t.author@);
            lemma_in_row(cells, 3, chars::decimal_int(t.post_count as int));
            lemma_in_row(cells, 4, t.last_post@);
            if clean::clean(t.title@) && 1 <= t.title@.len() <= 40 {
                lemma_first_line(t.title@);
            }
        }
    }
}

proof fn lemma_first_line(text: Seq<char>)
    requires
        clean::clean(text),
        text.len() > 0,
    ensures
        chars::lines(text) == seq![text],
{
    let one = seq![text];
    assert(clean::all_clean(one));
    clean::lemma_split_joined(one);
    assert(chars::joined(one, "\n"@) == text);
    assert(chars::lines(text) =~= one);
}

/// A line of at most so many characters is shown whole; a longer one up to
/// there, and an ellipsis tells that there was more.
pub proof fn law_first_lines(text: &str, max: usize, r: String)
    requires
        call_ensures(admin::first_line, (text, max), r),
        clean::clean(text@),
        text@.len() > 0,
    ensures
        text@.len() <= max ==> r@ == text@,
        text@.len() > max ==> r@ == text@.take(max as int) + "…"@,
{
    lemma_first_line(text@);
}

/// The posts of a thread are listed under its title in their order, each with
/// its number, author, time and first line.
#[verifier::rlimit(50)]
pub proof fn law_every_post_has_a_line(
    thread_id: i64,
    head: &ThreadHead,
    list: &Vec<PostRecord>,
    i: int,
    r: Vec<String>,
)
    requires
        call_ensures(admin::list_posts, (thread_id, head, list), r),
        0 <= i < list@.len(),
    ensures
        r@.len() == list@.len() + 2,
        shows(r@[0]@, head.title@),
        shows(r@[0]@, head.board_name@),
        shows(r@[i + 2]@, chars::decimal_int(list@[i].id as int)),
        shows(r@[i + 2]@, list@[i].author@),
        shows(r@[i + 2]@, list@[i].created@),
        clean::clean(list@[i].body@) && 1 <= list@[i].body@.len() <= 50 ==> shows(
            r@[i + 2]@,
            list@[i].body@,
        ),
{
    let p = list@[i];
    lemma_line(r@, 0);
    lemma_line(r@, i + 2);
    let front = "Thread "@ + chars::decimal_int(thread_id as int) + ": "@;
    lemma_both_shown(front, head.title@, " (board "@, head.board_name@, ")"@, r@[0]@);
    assert(r@[i + 2]@ == admin::post_row(p));
    let first = admin::first_line_of(p.body@, 50);
    let cells = seq![
        admin::numeral(p.id as int, 5),
        chars::padded(p.author@, 16),
        chars::padded(p.created@, 16),
        first,
    ];
    lemma_padded(chars::decimal_int(p.id as int), 5);
    lemma_padded(p.author@, 16);
    lemma_padded(p.created@, 16);
    lemma_shows_itself(first);
    lemma_in_row(cells, 0, chars::decimal_int(p.id as int));
    lemma_in_row(cells, 1, p.author@);
    lemma_in_row(cells, 2, p.created@);
    lemma_in_row(cells, 3, first);
    if clean::clean(p.body@) && 1 <= p.body@.len() <= 50 {
        lemma_first_line(p.body@);
    }
}

proof fn lemma_summary(users: Seq<UserSummary>, id: i64)
    ensures
        match admin::summary_of(users, id) {
            Some(u) => u.id == id && users.contains(u),
            None => forall|i: int| 0 <= i < users.len() ==> (#[trigger] users[i]).id != id,
        },
    decreases users.len(),
{
    if users.len() > 0 && users[0].id != id {
        let rest = users.drop_first();
        lemma_summary(rest, id);
        match admin::summary_of(rest, id) {
            Some(u) => {
                let k = choose|k: int| 0 <= k < rest.len() && rest[k] == u;
                assert(users[k + 1] == u);
            },
            None => {
                assert forall|i: int| 0 <= i < users.len() implies (#[trigger] users[i]).id
                    != id by {
                    if i > 0 {
                        assert(rest[i - 1] == users[i]);
                    }
                }
            },
        }
    } else if users.len() > 0 {
        assert(users[0] == users[0]);
    }
}

/// A user is shown with what is on record of them, whose numbers are their
/// own, and with all their keys.
#[verifier::rlimit(50)]
pub proof fn law_users_are_shown(
    a: &Account,
    users: &Vec<UserSummary>,
    keys: &Vec<KeyRecord>,
    u: UserSummary,
    i: int,
    r: Result<Vec<String>, String>,
)
    requires
        call_ensures(admin::show_user, (a, users, keys), r),
        users@.contains(u),
        u.id == a.id,
        forall|j: int, k: int| 0 <= j < k < users@.len() ==> (#[trigger] users@[j]).id != (#[trigger] users@[k]).id,
    ensures
        r is Ok,
        r->Ok_0@.len() == 7 + keys@.len(),
        r->Ok_0@[0]@ == "id:       "@ + chars::decimal_int(a.id as int),
        r->Ok_0@[1]@ == "name:     "@ + a.username@,
        r->Ok_0@[2]@ == "role:     "@ + (if a.role == Role::Sysop {
            "sysop"@
        } else {
            "user"@
        }),
        shows(r->Ok_0@[3]@, "banned"@) <== u.banned,
        !u.banned ==> r->Ok_0@[3]@ == "status:   ok"@,
        u.banned && u.ban_reason is Some ==> shows(r->Ok_0@[3]@, u.ban_reason->Some_0@),
        r->Ok_0@[4]@ == "created:  "@ + u.created@,
        r->Ok_0@[5]@ == "posts:    "@ + chars::decimal_int(u.posts as int),
        0 <= i < keys@.len() ==> shows(r->Ok_0@[7 + i]@, keys@[i].fingerprint@) && shows(
            r->Ok_0@[7 + i]@,
            keys@[i].comment@,
        ) && shows(r->Ok_0@[7 + i]@, chars::decimal_int(keys@[i].id as int)),
{
    lemma_summary(users@, a.id);
    let k = choose|k: int| 0 <= k < users@.len() && users@[k] == u;
    let found = admin::summary_of(users@, a.id);
    assert(found is Some);
    let m = choose|m: int| 0 <= m < users@.len() && users@[m] == found->Some_0;
    assert(k == m);
    let lines = r->Ok_0@;
    let page = admin::user_page(*a, u, keys@);
    lemma_line(lines, 0);
    lemma_line(lines, 1);
    lemma_line(lines, 2);
    lemma_line(lines, 3);
    lemma_line(lines, 4);
    lemma_line(lines, 5);
    let none = Seq::<char>::empty();
    if u.banned {
        reveal_strlit("banned");
        reveal_strlit("status:   banned (");
        reveal_strlit("status:   banned");
        let lead = "status:   banned"@.take(10);
        match u.ban_reason {
            Some(reason) => {
                assert(lines[3]@ =~= "status:   banned ("@ + reason@ + ")"@);
                lemma_shows("status:   banned ("@, reason@, ")"@, lines[3]@);
                let tail = seq![' ', '('] + reason@ + ")"@;
                assert(lines[3]@ =~= lead + "banned"@ + tail);
                lemma_shows(lead, "banned"@, tail, lines[3]@);
            },
            None => {
                assert(lines[3]@ =~= lead + "banned"@ + none);
                lemma_shows(lead, "banned"@, none, lines[3]@);
            },
        }
    }
    if 0 <= i < keys@.len() {
        lemma_line(lines, 7 + i);
        let key = keys@[i];
        assert(page[7 + i] == admin::key_row(key));
        let line = lines[7 + i]@;
        let number = chars::decimal_int(key.id as int);
        assert(line =~= "  ["@ + number + ("] "@ + key.fingerprint@ + "  "@ + key.comment@));
        lemma_shows("  ["@, number, "] "@ + key.fingerprint@ + "  "@ + key.comment@, line);
        let lead = "  ["@ + number + "] "@;
        assert(line =~= lead + key.fingerprint@ + ("  "@ + key.comment@));
        lemma_shows(lead, key.fingerprint@, "  "@ + key.comment@, line);
        let most = lead + key.fingerprint@ + "  "@;
        assert(line =~= most + key.comment@ + none);
        lemma_shows(most, key.comment@, none, line);
    }
}

/// The totals are shown, each behind its name.
#[verifier::rlimit(50)]
pub proof fn law_totals_are_shown(s: &Stats, r: Vec<String>)
    requires
        call_ensures(admin::stats_lines, (s,), r),
    ensures
        r@.len() == 5,
        shows(r@[0]@, chars::decimal_int(s.users as int)),
        shows(r@[0]@, chars::decimal_int(s.sysops as int) + " sysops"@),
        shows(r@[0]@, chars::decimal_int(s.banned as int) + " banned"@),
        r@[1]@ == "boards:  "@ + chars::decimal_int(s.boards as int),
        r@[2]@ == "threads: "@ + chars::decimal_int(s.threads as int),
        r@[3]@ == "posts:   "@ + chars::decimal_int(s.posts as int),
        r@[4]@ == "keys:    "@ + chars::decimal_int(s.keys as int),
{
    lemma_line(r@, 0);
    lemma_line(r@, 1);
    lemma_line(r@, 2);
    lemma_line(r@, 3);
    lemma_line(r@, 4);
    reveal_strlit(" sysops, ");
    reveal_strlit(" sysops");
    reveal_strlit(" banned)");
    reveal_strlit(" banned");
    let line = r@[0]@;
    let users = chars::decimal_int(s.users as int);
    let sysops = chars::decimal_int(s.sysops as int);
    let banned = chars::decimal_int(s.banned as int);
    let a = "users:   "@;
    let rest = " ("@ + sysops + " sysops, "@ + banned + " banned)"@;
    assert(line =~= a + users + rest);
    lemma_shows(a, users, rest, line);
    let b = a + users + " ("@;
    let after = seq![',', ' '] + banned + " banned)"@;
    assert(line =~= b + (sysops + " sysops"@) + after);
    lemma_shows(b, sysops + " sysops"@, after, line);
    let c = b + sysops + " sysops, "@;
    assert(line =~= c + (banned + " banned"@) + seq![')']);
    lemma_shows(c, banned + " banned"@, seq![')'], line);
}

// -------------------------------------------------------------------- the changes

/// A new board gets the name and the description that were given, where these
/// are clean lines of 3 to 80 characters; the description may be left out.
pub proof fn law_boards_are_made_as_asked(
    name: &str,
    description: &str,
    r: Result<(String, String), String>,
)
    requires
        call_ensures(admin::new_board, (name, description), r),
        clean::clean(name@),
        clean::evenly_spaced(name@),
        3 <= name@.len() <= 80,
        clean::clean(description@),
        clean::evenly_spaced(description@),
        3 <= description@.len() <= 80 || description@.len() == 0,
    ensures
        r matches Ok(texts) && texts.0@ == name@ && texts.1@ == description@,
{
    clean::law_clean_lines_are_kept(name@);
    clean::law_clean_lines_are_kept(description@);
    if description@.len() == 0 {
        assert(description@ =~= Seq::<char>::empty());
    }
}

/// A role that a user has is not given again; another one is, to that user.
pub proof fn law_roles_are_given(a: &Account, role: Role, r: RoleChange)
    requires
        call_ensures(admin::set_role, (a, role), r),
    ensures
        r is Already <==> a.role == role,
        r matches RoleChange::Change(text) ==> a.username@.is_prefix_of(text@) && text@
            == a.username@ + " is now "@ + (if role == Role::Sysop {
            "sysop"@
        } else {
            "user"@
        }) + "."@,
{
    if r is Change {
        let text = r->Change_0@;
        assert(a.username@ =~= text.subrange(0, a.username@.len() as int));
    }
}

/// A password is what stands on its line; it has to be typed the same twice,
/// and is taken as it is where it is valid.
pub proof fn law_passwords_are_read(
    line: &str,
    word: Seq<char>,
    read: String,
    first: String,
    again: &str,
    repeated: Result<String, String>,
    username: &str,
    password: String,
    text: &str,
    valid: Result<(), String>,
    taken: Result<String, String>,
)
    requires
        call_ensures(admin::password_on_line, (line,), read),
        call_ensures(admin::repeated_password, (first, again), repeated),
        call_ensures(admin::read_password, (username, password), taken),
        call_ensures(auth::validate_password, (username, text), valid),
        text@ == password@,
        word.len() > 0 ==> word.last() != '\n' && word.last() != '\r',
        line@ == word || line@ == word + seq!['\n'] || line@ == word + seq!['\r', '\n'],
    ensures
        read@ == word,
        repeated is Ok <==> first@ == again@,
        repeated is Ok ==> repeated->Ok_0@ == first@,
        valid is Ok ==> (taken matches Ok(p) && p@ == password@),
        valid is Err ==> (taken matches Err(e) && e@ == valid->Err_0@),
{
    reveal_with_fuel(admin::without_line_end, 3);
    if line@ == word + seq!['\n'] {
        assert(line@.drop_last() =~= word);
    } else if line@ == word + seq!['\r', '\n'] {
        assert(line@.drop_last() =~= word + seq!['\r']);
        assert(line@.drop_last().drop_last() =~= word);
    }
    assert(auth::verdict(valid) == auth::password_verdict(username@, text@));
    assert(content::outcome(repeated) is Ok <==> repeated is Ok);
    assert(content::outcome(taken) is Ok <==> taken is Ok);
}

/// An account that is looked up is the one that was found; one that is not
/// there is named.
pub proof fn law_accounts_are_looked_up(
    name: &str,
    found: Result<Option<Account>, DbError>,
    r: Result<Account, String>,
)
    requires
        call_ensures(admin::account, (name, found), r),
    ensures
        match found {
            Ok(Some(a)) => r == Ok::<Account, String>(a),
            Ok(None) => r matches Err(e) && e@ == "no such user: "@ + name@,
            Err(_) => r is Err,
        },
{
    assert(boards::account_outcome(r) == admin::account_named(name@, found));
}

/// A user who was made is told by their number; a name that is taken is told
/// to be.
#[verifier::rlimit(50)]
pub proof fn law_users_are_made(
    name: &str,
    made: Result<i64, DbError>,
    r: Result<i64, String>,
    id: i64,
    sysop: bool,
    welcome: String,
    named: Result<(), String>,
    valid: Result<(), String>,
)
    requires
        call_ensures(admin::user_created, (name, made), r),
        call_ensures(admin::user_welcome, (name, id, sysop), welcome),
        call_ensures(admin::new_user_name, (name,), named),
        call_ensures(auth::validate_username_format, (name,), valid),
    ensures
        match made {
            Ok(id) => r == Ok::<i64, String>(id),
            Err(DbError::Duplicate) => r matches Err(e) && shows(e@, name@),
            Err(_) => r is Err,
        },
        shows(welcome@, name@),
        shows(welcome@, chars::decimal_int(id as int)),
        named is Ok <==> valid is Ok,
{
    assert(boards::id_outcome(r) is Ok <==> r is Ok);
    if made matches Err(DbError::Duplicate) {
        lemma_shows("a user named "@, name@, " already exists"@, r->Err_0@);
    }
    let kind = if sysop {
        "Created sysop "@
    } else {
        "Created user "@
    };
    let number = chars::decimal_int(id as int);
    lemma_both_shown(kind, name@, " (id "@, number, ")."@, welcome@);
    assert(auth::verdict(named) == auth::username_format(name@));
    assert(auth::verdict(valid) == auth::username_format(name@));
}

/// What was done is told exactly if it was done, by the name and the number of
/// what it was done to.
#[verifier::rlimit(50)]
pub proof fn law_changes_are_told(
    id: i64,
    name: &str,
    position: i64,
    made: Result<i64, DbError>,
    done: Result<(), DbError>,
    created: Result<String, String>,
    renamed: Result<String, String>,
    described: Result<String, String>,
    moved: Result<String, String>,
    deleted: Result<String, String>,
)
    requires
        call_ensures(admin::board_created, (name, made), created),
        call_ensures(admin::board_renamed, (id, name, done), renamed),
        call_ensures(admin::board_described, (id, done), described),
        call_ensures(admin::board_moved, (id, position, done), moved),
        call_ensures(admin::board_deleted, (id, done), deleted),
    ensures
        created is Ok <==> made is Ok,
        renamed is Ok <==> done is Ok,
        described is Ok <==> done is Ok,
        moved is Ok <==> done is Ok,
        deleted is Ok <==> done is Ok,
        made is Ok ==> created->Ok_0@ == "Created board "@ + chars::decimal_int(
            made->Ok_0 as int,
        ) + ": "@ + name@,
        made == Err::<i64, DbError>(DbError::Duplicate) ==> shows(created->Err_0@, name@),
        done is Ok ==> {
            let number = chars::decimal_int(id as int);
            &&& shows(renamed->Ok_0@, name@)
            &&& shows(renamed->Ok_0@, number)
            &&& shows(described->Ok_0@, number)
            &&& shows(moved->Ok_0@, number)
            &&& shows(moved->Ok_0@, chars::decimal_int(position as int))
            &&& shows(deleted->Ok_0@, number)
        },
        done == Err::<(), DbError>(DbError::NotEmpty) ==> shows(deleted->Err_0@, "--force"@),
{
    assert(content::outcome(created) is Ok <==> created is Ok);
    assert(content::outcome(renamed) is Ok <==> renamed is Ok);
    assert(content::outcome(described) is Ok <==> described is Ok);
    assert(content::outcome(moved) is Ok <==> moved is Ok);
    assert(content::outcome(deleted) is Ok <==> deleted is Ok);
    let number = chars::decimal_int(id as int);
    let place = chars::decimal_int(position as int);
    if made == Err::<i64, DbError>(DbError::Duplicate) {
        lemma_shows("a board named \""@, name@, "\" already exists"@, created->Err_0@);
    }
    if done is Ok {
        lemma_both_shown(
            "Board "@,
            number,
            " is now called \""@,
            name@,
            "\"."@,
            renamed->Ok_0@,
        );
        lemma_shows("Updated the description of board "@, number, "."@, described->Ok_0@);
        lemma_both_shown(
            "Board "@,
            number,
            " is now at position "@,
            place,
            "."@,
            moved->Ok_0@,
        );
        lemma_shows("Deleted board "@, number, "."@, deleted->Ok_0@);
    }
    if done == Err::<(), DbError>(DbError::NotEmpty) {
        reveal_strlit("--force");
        reveal_strlit(" still has threads; use --force to delete them and their posts");
        let why = " still has threads; use --force to delete them and their posts"@;
        let front = "board "@ + number + why.take(24);
        assert(deleted->Err_0@ =~= front + "--force"@ + why.skip(31));
        lemma_shows(front, "--force"@, why.skip(31), deleted->Err_0@);
    }
}

/// What is said of a thread that is gone or not there names it.
#[verifier::rlimit(50)]
pub proof fn law_deleted_threads_are_named(
    id: i64,
    head: &ThreadHead,
    thread: String,
    missing: String,
)
    requires
        call_ensures(admin::thread_deleted, (id, head), thread),
        call_ensures(admin::no_such_thread, (id,), missing),
    ensures
        shows(thread@, chars::decimal_int(id as int)),
        shows(thread@, head.title@),
        shows(thread@, head.board_name@),
        missing@ == "no such thread: "@ + chars::decimal_int(id as int),
{
    let number = chars::decimal_int(id as int);
    let lead = "Deleted thread "@ + number + " \""@;
    lemma_both_shown(lead, head.title@, "\" from board "@, head.board_name@, "."@, thread@);
    let rest = "\" from board "@ + head.board_name@ + "."@;
    assert(thread@ =~= "Deleted thread "@ + number + (" \""@ + head.title@ + rest));
    lemma_shows("Deleted thread "@, number, " \""@ + head.title@ + rest, thread@);
}

/// What is said of a post that is gone names it and its thread, and tells
/// whether that is gone too.
#[verifier::rlimit(50)]
pub proof fn law_deleted_posts_are_named(id: i64, deletion: PostDeletion, post: String)
    requires
        call_ensures(admin::post_deleted, (id, deletion), post),
    ensures
        shows(post@, chars::decimal_int(id as int)),
        shows(post@, chars::decimal_int(deletion.thread_id as int)),
        deletion.thread_deleted ==> " is gone too."@.is_suffix_of(post@),
{
    let number = chars::decimal_int(id as int);
    let of = chars::decimal_int(deletion.thread_id as int);
    if deletion.thread_deleted {
        lemma_both_shown(
            "Deleted post "@,
            number,
            "; it was the last one, so thread "@,
            of,
            " is gone too."@,
            post@,
        );
    } else {
        lemma_both_shown("Deleted post "@, number, " from thread "@, of, "."@, post@);
    }
}

/// What is said of users and keys names them.
pub proof fn law_changed_users_are_named(
    id: i64,
    a: &Account,
    banned: String,
    unbanned: String,
    password: String,
    key: String,
)
    requires
        call_ensures(admin::user_banned, (a,), banned),
        call_ensures(admin::user_unbanned, (a,), unbanned),
        call_ensures(admin::password_changed, (a,), password),
        call_ensures(admin::key_removed, (id,), key),
    ensures
        ("Banned "@ + a.username@).is_prefix_of(banned@),
        unbanned@ == "Unbanned "@ + a.username@ + "."@,
        password@ == "Password for "@ + a.username@ + " changed."@,
        key@ == "Removed key "@ + chars::decimal_int(id as int) + "."@,
{
    let lead = "Banned "@ + a.username@;
    assert(lead =~= banned@.subrange(0, lead.len() as int));
}

} // verus!
