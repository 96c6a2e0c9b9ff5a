//! What the command-line administration tool says and decides. It works on
//! the database while the server is up: the server reads roles, bans, boards
//! and posts fresh on every action.

use vstd::prelude::*;

use crate::auth;
use crate::auth::{validate_password, validate_username_format};
use crate::chars;
use crate::chars::{
    align_right, cat2, cat3, cat4, cat5, from_chars, int_text, join_strings, lines_of, pad, same,
    size_text, take_chars, to_chars, trim_text,
};
use crate::content;
use crate::content::clean_title;
use crate::db::{
    Account, BoardRecord, DbError, KeyRecord, PostDeletion, PostRecord, Role, Stats, ThreadHead,
    ThreadRecord, UserSummary,
};

verus! {

// -------------------------------------------------------------------- common

/// A database error together with what was being done.
pub open spec fn failure(what: Seq<char>, err: DbError) -> Seq<char> {
    what + ": "@ + err.message()
}

/// A database error together with what was being done.
pub fn db_failure(what: &str, err: DbError) -> (r: String)
    ensures
        r@ == failure(what@, err),
{
    cat3(what, ": ", err.text())
}

/// One more line, for the next item, continues the rows of a table.
proof fn lemma_row_added<T>(
    lines: Seq<String>,
    line: String,
    head: Seq<Seq<char>>,
    items: Seq<T>,
    i: int,
    row: spec_fn(T) -> Seq<char>,
)
    requires
        0 <= i < items.len(),
        chars::string_texts(lines) == head + items.take(i).map_values(row),
        line@ == row(items[i]),
    ensures
        chars::string_texts(lines.push(line)) == head + items.take(i + 1).map_values(row),
{
    assert(chars::string_texts(lines.push(line)) =~= chars::string_texts(lines).push(line@));
    assert(items.take(i + 1) =~= items.take(i).push(items[i]));
    assert(chars::string_texts(lines.push(line)) =~= head + items.take(i + 1).map_values(row));
}

/// The account called `name`, or what is said instead.
pub open spec fn account_named(
    name: Seq<char>,
    found: Result<Option<Account>, DbError>,
) -> Result<Account, Seq<char>> {
    match found {
        Ok(Some(account)) => Ok(account),
        Ok(None) => Err("no such user: "@ + name),
        Err(e) => Err(failure("looking up user"@, e)),
    }
}

pub fn account(name: &str, found: Result<Option<Account>, DbError>) -> (r: Result<Account, String>)
    ensures
        crate::boards::account_outcome(r) == account_named(name@, found),
{
    match found {
        Ok(Some(account)) => Ok(account),
        Ok(None) => Err(cat2("no such user: ", name)),
        Err(e) => Err(db_failure("looking up user", e)),
    }
}

/// The first line of a text, cut off with an ellipsis after `max` characters.
pub open spec fn first_line_of(text: Seq<char>, max: int) -> Seq<char> {
    let lines = chars::lines(text);
    let line = if lines.len() == 0 {
        Seq::empty()
    } else {
        lines[0]
    };
    if line.len() > max {
        line.take(max) + "…"@
    } else {
        line
    }
}

pub fn first_line(text: &str, max: usize) -> (r: String)
    ensures
        r@ == first_line_of(text@, max as int),
{
    let lines = lines_of(text);
    assert(chars::texts(lines@).len() == lines@.len());
    if lines.len() == 0 {
        let none = String::new();
        assert(none@ =~= Seq::empty());
        return none;
    }
    assert(chars::texts(lines@)[0] == lines@[0]@);
    let line = &lines[0];
    if line.len() > max {
        let kept = from_chars(&take_chars(line, max));
        cat2(&kept, "…")
    } else {
        from_chars(line)
    }
}

/// Cells of a row stand two columns apart.
pub open spec fn row_of(cells: Seq<Seq<char>>) -> Seq<char> {
    chars::joined(cells, "  "@)
}

/// A number in a column of `width`, to the right.
pub open spec fn numeral(n: int, width: nat) -> Seq<char> {
    chars::right_aligned(chars::decimal_int(n), width)
}

fn number_cell(n: i64, width: usize) -> (r: String)
    ensures
        r@ == numeral(n as int, width as nat),
{
    align_right(&int_text(n), width)
}

// --------------------------------------------------------------------- stats

/// How much there is of everything.
pub open spec fn stats_text(s: Stats) -> Seq<Seq<char>> {
    seq![
        "users:   "@ + chars::decimal_int(s.users as int) + " ("@ + chars::decimal_int(
            s.sysops as int,
        ) + " sysops, "@ + chars::decimal_int(s.banned as int) + " banned)"@,
        "boards:  "@ + chars::decimal_int(s.boards as int),
        "threads: "@ + chars::decimal_int(s.threads as int),
        "posts:   "@ + chars::decimal_int(s.posts as int),
        "keys:    "@ + chars::decimal_int(s.keys as int),
    ]
}

pub fn stats_lines(s: &Stats) -> (r: Vec<String>)
    ensures
        chars::string_texts(r@) == stats_text(*s),
{
    let mut users = cat4("users:   ", &int_text(s.users), " (", &int_text(s.sysops));
    users.append(" sysops, ");
    users.append(&int_text(s.banned));
    users.append(" banned)");
    let r = vec![
        users,
        cat2("boards:  ", &int_text(s.boards)),
        cat2("threads: ", &int_text(s.threads)),
        cat2("posts:   ", &int_text(s.posts)),
        cat2("keys:    ", &int_text(s.keys)),
    ];
    assert(chars::string_texts(r@) =~= stats_text(*s));
    r
}

// --------------------------------------------------------- threads and posts

pub open spec fn thread_row(t: ThreadRecord) -> Seq<char> {
    row_of(
        seq![
            numeral(t.id as int, 5),
            chars::padded(first_line_of(t.title@, 40), 40),
            chars::padded(t.author@, 16),
            numeral(t.post_count as int, 5),
            t.last_post@,
        ],
    )
}

fn thread_line(t: &ThreadRecord) -> (r: String)
    ensures
        r@ == thread_row(*t),
{
    let cells = vec![
        number_cell(t.id, 5),
        pad(&first_line(&t.title, 40), 40),
        pad(&t.author, 16),
        number_cell(t.post_count, 5),
        t.last_post.clone(),
    ];
    assert(chars::string_texts(cells@) =~= seq![
        numeral(t.id as int, 5),
        chars::padded(first_line_of(t.title@, 40), 40),
        chars::padded(t.author@, 16),
        numeral(t.post_count as int, 5),
        t.last_post@,
    ]);
    join_strings(&cells, "  ")
}

/// The threads of a board.
pub open spec fn thread_table(
    board_id: int,
    name: Seq<char>,
    threads: Seq<ThreadRecord>,
) -> Seq<Seq<char>> {
    seq![
        "Board "@ + chars::decimal_int(board_id) + ": "@ + name,
        row_of(
            seq![
                chars::right_aligned("ID"@, 5),
                chars::padded("TITLE"@, 40),
                chars::padded("AUTHOR"@, 16),
                chars::right_aligned("POSTS"@, 5),
                "LAST POST"@,
            ],
        ),
    ] + threads.map_values(|t: ThreadRecord| thread_row(t))
}

/// Lists the threads of a board; without a name there is no such board.
pub fn list_threads(board_id: i64, name: Option<String>, threads: &Vec<ThreadRecord>) -> (r: Result<
    Vec<String>,
    String,
>)
    ensures
        match name {
            None => r matches Err(e) && e@ == "no such board: "@ + chars::decimal_int(
                board_id as int,
            ),
            Some(name) => r matches Ok(lines) && chars::string_texts(lines@) == thread_table(
                board_id as int,
                name@,
                threads@,
            ),
        },
{
    let name = match name {
        Some(name) => name,
        None => return Err(cat2("no such board: ", &int_text(board_id))),
    };
    let cells = vec![
        align_right("ID", 5),
        pad("TITLE", 40),
        pad("AUTHOR", 16),
        align_right("POSTS", 5),
        "LAST POST".to_owned(),
    ];
    assert(chars::string_texts(cells@) =~= seq![
        chars::right_aligned("ID"@, 5),
        chars::padded("TITLE"@, 40),
        chars::padded("AUTHOR"@, 16),
        chars::right_aligned("POSTS"@, 5),
        "LAST POST"@,
    ]);
    let mut lines = vec![
        cat4("Board ", &int_text(board_id), ": ", &name),
        join_strings(&cells, "  "),
    ];
    let ghost head = chars::string_texts(lines@);
    let mut i: usize = 0;
    while i < threads.len()
        invariant
            i <= threads@.len(),
            chars::string_texts(lines@) == head + threads@.take(i as int).map_values(
                |t: ThreadRecord| thread_row(t),
            ),
        decreases threads@.len() - i,
    {
        let line = thread_line(&threads[i]);
        proof {
            lemma_row_added(
                lines@,
                line,
                head,
                threads@,
                i as int,
                |t: ThreadRecord| thread_row(t),
            );
        }
        lines.push(line);
        i += 1;
    }
    assert(threads@.take(threads@.len() as int) =~= threads@);
    assert(chars::string_texts(lines@) =~= thread_table(board_id as int, name@, threads@));
    Ok(lines)
}

/// What is said once a thread is gone.
pub fn thread_deleted(id: i64, head: &ThreadHead) -> (r: String)
    ensures
        r@ == "Deleted thread "@ + chars::decimal_int(id as int) + " \""@ + head.title@
            + "\" from board "@ + head.board_name@ + "."@,
{
    let mut r = cat5(
        "Deleted thread ",
        &int_text(id),
        " \"",
        &head.title,
        "\" from board ",
    );
    r.append(&head.board_name);
    r.append(".");
    r
}

/// There is no thread of that number.
pub fn no_such_thread(id: i64) -> (r: String)
    ensures
        r@ == "no such thread: "@ + chars::decimal_int(id as int),
{
    cat2("no such thread: ", &int_text(id))
}

pub open spec fn post_row(p: PostRecord) -> Seq<char> {
    row_of(
        seq![
            numeral(p.id as int, 5),
            chars::padded(p.author@, 16),
            chars::padded(p.created@, 16),
            first_line_of(p.body@, 50),
        ],
    )
}

fn post_line(p: &PostRecord) -> (r: String)
    ensures
        r@ == post_row(*p),
{
    let cells = vec![
        number_cell(p.id, 5),
        pad(&p.author, 16),
        pad(&p.created, 16),
        first_line(&p.body, 50),
    ];
    assert(chars::string_texts(cells@) =~= seq![
        numeral(p.id as int, 5),
        chars::padded(p.author@, 16),
        chars::padded(p.created@, 16),
        first_line_of(p.body@, 50),
    ]);
    join_strings(&cells, "  ")
}

/// The posts of a thread.
pub open spec fn post_table(
    thread_id: int,
    head: ThreadHead,
    posts: Seq<PostRecord>,
) -> Seq<Seq<char>> {
    seq![
        "Thread "@ + chars::decimal_int(thread_id) + ": "@ + head.title@ + " (board "@
            + head.board_name@ + ")"@,
        row_of(
            seq![
                chars::right_aligned("ID"@, 5),
                chars::padded("AUTHOR"@, 16),
                chars::padded("POSTED"@, 16),
                "TEXT"@,
            ],
        ),
    ] + posts.map_values(|p: PostRecord| post_row(p))
}

pub fn list_posts(thread_id: i64, head: &ThreadHead, posts: &Vec<PostRecord>) -> (r: Vec<String>)
    ensures
        chars::string_texts(r@) == post_table(thread_id as int, *head, posts@),
{
    let cells = vec![
        align_right("ID", 5),
        pad("AUTHOR", 16),
        pad("POSTED", 16),
        "TEXT".to_owned(),
    ];
    assert(chars::string_texts(cells@) =~= seq![
        chars::right_aligned("ID"@, 5),
        chars::padded("AUTHOR"@, 16),
        chars::padded("POSTED"@, 16),
        "TEXT"@,
    ]);
    let mut title = cat5("Thread ", &int_text(thread_id), ": ", &head.title, " (board ");
    title.append(&head.board_name);
    title.append(")");
    let mut lines = vec![title, join_strings(&cells, "  ")];
    let ghost first = chars::string_texts(lines@);
    let mut i: usize = 0;
    while i < posts.len()
        invariant
            i <= posts@.len(),
            chars::string_texts(lines@) == first + posts@.take(i as int).map_values(
                |p: PostRecord| post_row(p),
            ),
        decreases posts@.len() - i,
    {
        let line = post_line(&posts[i]);
        proof {
            lemma_row_added(
                lines@,
                line,
                first,
                posts@,
                i as int,
                |p: PostRecord| post_row(p),
            );
        }
        lines.push(line);
        i += 1;
    }
    assert(posts@.take(posts@.len() as int) =~= posts@);
    assert(chars::string_texts(lines@) =~= post_table(thread_id as int, *head, posts@));
    lines
}

/// What is said once a post is gone.
pub fn post_deleted(id: i64, deletion: PostDeletion) -> (r: String)
    ensures
        r@ == (if deletion.thread_deleted {
            "Deleted post "@ + chars::decimal_int(id as int)
                + "; it was the last one, so thread "@ + chars::decimal_int(
                deletion.thread_id as int,
            ) + " is gone too."@
        } else {
            "Deleted post "@ + chars::decimal_int(id as int) + " from thread "@
                + chars::decimal_int(deletion.thread_id as int) + "."@
        }),
{
    if deletion.thread_deleted {
        cat5(
            "Deleted post ",
            &int_text(id),
            "; it was the last one, so thread ",
            &int_text(deletion.thread_id),
            " is gone too.",
        )
    } else {
        cat5(
            "Deleted post ",
            &int_text(id),
            " from thread ",
            &int_text(deletion.thread_id),
            ".",
        )
    }
}

// -------------------------------------------------------------------- boards

pub open spec fn board_row(b: BoardRecord) -> Seq<char> {
    row_of(
        seq![
            numeral(b.id as int, 4),
            numeral(b.position as int, 3),
            chars::padded(b.name@, 16),
            numeral(b.thread_count as int, 7),
            b.description@,
        ],
    )
}

fn board_line(b: &BoardRecord) -> (r: String)
    ensures
        r@ == board_row(*b),
{
    let cells = vec![
        number_cell(b.id, 4),
        number_cell(b.position, 3),
        pad(&b.name, 16),
        number_cell(b.thread_count, 7),
        b.description.clone(),
    ];
    assert(chars::string_texts(cells@) =~= seq![
        numeral(b.id as int, 4),
        numeral(b.position as int, 3),
        chars::padded(b.name@, 16),
        numeral(b.thread_count as int, 7),
        b.description@,
    ]);
    join_strings(&cells, "  ")
}

/// The boards in display order.
pub open spec fn board_table(boards: Seq<BoardRecord>) -> Seq<Seq<char>> {
    seq![
        row_of(
            seq![
                chars::right_aligned("ID"@, 4),
                chars::right_aligned("POS"@, 3),
                chars::padded("NAME"@, 16),
                chars::right_aligned("THREADS"@, 7),
                "DESCRIPTION"@,
            ],
        ),
    ] + boards.map_values(|b: BoardRecord| board_row(b))
}

pub fn list_boards(boards: &Vec<BoardRecord>) -> (r: Vec<String>)
    ensures
        chars::string_texts(r@) == board_table(boards@),
{
    let cells = vec![
        align_right("ID", 4),
        align_right("POS", 3),
        pad("NAME", 16),
        align_right("THREADS", 7),
        "DESCRIPTION".to_owned(),
    ];
    assert(chars::string_texts(cells@) =~= seq![
        chars::right_aligned("ID"@, 4),
        chars::right_aligned("POS"@, 3),
        chars::padded("NAME"@, 16),
        chars::right_aligned("THREADS"@, 7),
        "DESCRIPTION"@,
    ]);
    let mut lines = vec![join_strings(&cells, "  ")];
    let ghost first = chars::string_texts(lines@);
    let mut i: usize = 0;
    while i < boards.len()
        invariant
            i <= boards@.len(),
            chars::string_texts(lines@) == first + boards@.take(i as int).map_values(
                |b: BoardRecord| board_row(b),
            ),
        decreases boards@.len() - i,
    {
        let line = board_line(&boards[i]);
        proof {
            lemma_row_added(
                lines@,
                line,
                first,
                boards@,
                i as int,
                |b: BoardRecord| board_row(b),
            );
        }
        lines.push(line);
        i += 1;
    }
    assert(boards@.take(boards@.len() as int) =~= boards@);
    assert(chars::string_texts(lines@) =~= board_table(boards@));
    lines
}

/// The name and description a new board gets, or why it gets none. A blank
/// description is none at all; any other is held to the rules for titles.
pub open spec fn board_texts(name: Seq<char>, description: Seq<char>) -> Result<
    (Seq<char>, Seq<char>),
    Seq<char>,
> {
    match content::title_of(name) {
        Err(e) => Err(e),
        Ok(name) => if chars::trim(description).len() == 0 {
            Ok((name, Seq::empty()))
        } else {
            match content::title_of(description) {
                Err(e) => Err(e),
                Ok(description) => Ok((name, description)),
            }
        },
    }
}

pub fn new_board(name: &str, description: &str) -> (r: Result<(String, String), String>)
    ensures
        match board_texts(name@, description@) {
            Ok((clean_name, clean_description)) => r matches Ok((n, d)) && n@ == clean_name && d@
                == clean_description,
            Err(why) => r matches Err(e) && e@ == why,
        },
{
    let name = match clean_title(name) {
        Ok(name) => name,
        Err(e) => return Err(e),
    };
    if trim_text(description).as_str().unicode_len() == 0 {
        let none = String::new();
        assert(none@ =~= Seq::empty());
        return Ok((name, none));
    }
    match clean_title(description) {
        Ok(description) => Ok((name, description)),
        Err(e) => Err(e),
    }
}

/// What is said once the database has tried to create a board.
pub fn board_created(name: &str, result: Result<i64, DbError>) -> (r: Result<String, String>)
    ensures
        content::outcome(r) == match result {
            Ok(id) => Ok::<Seq<char>, Seq<char>>(
                "Created board "@ + chars::decimal_int(id as int) + ": "@ + name@,
            ),
            Err(DbError::Duplicate) => Err("a board named \""@ + name@ + "\" already exists"@),
            Err(e) => Err(failure("creating board"@, e)),
        },
{
    match result {
        Ok(id) => Ok(cat4("Created board ", &int_text(id), ": ", name)),
        Err(DbError::Duplicate) => Err(cat3("a board named \"", name, "\" already exists")),
        Err(e) => Err(db_failure("creating board", e)),
    }
}

/// What is said once the database has tried to rename a board.
pub fn board_renamed(id: i64, name: &str, result: Result<(), DbError>) -> (r: Result<String, String>)
    ensures
        content::outcome(r) == match result {
            Ok(()) => Ok::<Seq<char>, Seq<char>>(
                "Board "@ + chars::decimal_int(id as int) + " is now called \""@ + name@
                    + "\"."@,
            ),
            Err(e) => Err(failure("renaming board"@, e)),
        },
{
    match result {
        Ok(()) => Ok(cat5("Board ", &int_text(id), " is now called \"", name, "\".")),
        Err(e) => Err(db_failure("renaming board", e)),
    }
}

/// What is said once the database has tried to change a board's description.
pub fn board_described(id: i64, result: Result<(), DbError>) -> (r: Result<String, String>)
    ensures
        content::outcome(r) == match result {
            Ok(()) => Ok::<Seq<char>, Seq<char>>(
                "Updated the description of board "@ + chars::decimal_int(id as int) + "."@,
            ),
            Err(e) => Err(failure("updating board"@, e)),
        },
{
    match result {
        Ok(()) => Ok(cat3("Updated the description of board ", &int_text(id), ".")),
        Err(e) => Err(db_failure("updating board", e)),
    }
}

/// What is said once the database has tried to move a board.
pub fn board_moved(id: i64, position: i64, result: Result<(), DbError>) -> (r: Result<
    String,
    String,
>)
    ensures
        content::outcome(r) == match result {
            Ok(()) => Ok::<Seq<char>, Seq<char>>(
                "Board "@ + chars::decimal_int(id as int) + " is now at position "@
                    + chars::decimal_int(position as int) + "."@,
            ),
            Err(e) => Err(failure("moving board"@, e)),
        },
{
    match result {
        Ok(()) => Ok(
            cat5("Board ", &int_text(id), " is now at position ", &int_text(position), "."),
        ),
        Err(e) => Err(db_failure("moving board", e)),
    }
}

/// What is said once the database has tried to delete a board.
pub fn board_deleted(id: i64, result: Result<(), DbError>) -> (r: Result<String, String>)
    ensures
        content::outcome(r) == match result {
            Ok(()) => Ok::<Seq<char>, Seq<char>>(
                "Deleted board "@ + chars::decimal_int(id as int) + "."@,
            ),
            Err(DbError::NotEmpty) => Err(
                "board "@ + chars::decimal_int(id as int)
                    + " still has threads; use --force to delete them and their posts"@,
            ),
            Err(e) => Err(failure("deleting board"@, e)),
        },
{
    match result {
        Ok(()) => Ok(cat3("Deleted board ", &int_text(id), ".")),
        Err(DbError::NotEmpty) => Err(
            cat3(
                "board ",
                &int_text(id),
                " still has threads; use --force to delete them and their posts",
            ),
        ),
        Err(e) => Err(db_failure("deleting board", e)),
    }
}

// --------------------------------------------------------------------- users

pub open spec fn user_row(u: UserSummary) -> Seq<char> {
    row_of(
        seq![
            numeral(u.id as int, 4),
            chars::padded(u.username@, 16),
            chars::padded(u.role.name(), 6),
            chars::padded(
                if u.banned {
                    "banned"@
                } else {
                    "ok"@
                },
                7,
            ),
            numeral(u.posts as int, 5),
            numeral(u.keys as int, 4),
            u.created@,
        ],
    )
}

fn user_line(u: &UserSummary) -> (r: String)
    ensures
        r@ == user_row(*u),
{
    let status = if u.banned {
        "banned"
    } else {
        "ok"
    };
    let cells = vec![
        number_cell(u.id, 4),
        pad(&u.username, 16),
        pad(u.role.as_str(), 6),
        pad(status, 7),
        number_cell(u.posts, 5),
        number_cell(u.keys, 4),
        u.created.clone(),
    ];
    assert(chars::string_texts(cells@) =~= seq![
        numeral(u.id as int, 4),
        chars::padded(u.username@, 16),
        chars::padded(u.role.name(), 6),
        chars::padded(status@, 7),
        numeral(u.posts as int, 5),
        numeral(u.keys as int, 4),
        u.created@,
    ]);
    join_strings(&cells, "  ")
}

/// All users.
pub open spec fn user_table(users: Seq<UserSummary>) -> Seq<Seq<char>> {
    seq![
        row_of(
            seq![
                chars::right_aligned("ID"@, 4),
                chars::padded("NAME"@, 16),
                chars::padded("ROLE"@, 6),
                chars::padded("STATUS"@, 7),
                chars::right_aligned("POSTS"@, 5),
                chars::right_aligned("KEYS"@, 4),
                "CREATED"@,
            ],
        ),
    ] + users.map_values(|u: UserSummary| user_row(u))
}

pub fn list_users(users: &Vec<UserSummary>) -> (r: Vec<String>)
    ensures
        chars::string_texts(r@) == user_table(users@),
{
    let cells = vec![
        align_right("ID", 4),
        pad("NAME", 16),
        pad("ROLE", 6),
        pad("STATUS", 7),
        align_right("POSTS", 5),
        align_right("KEYS", 4),
        "CREATED".to_owned(),
    ];
    assert(chars::string_texts(cells@) =~= seq![
        chars::right_aligned("ID"@, 4),
        chars::padded("NAME"@, 16),
        chars::padded("ROLE"@, 6),
        chars::padded("STATUS"@, 7),
        chars::right_aligned("POSTS"@, 5),
        chars::right_aligned("KEYS"@, 4),
        "CREATED"@,
    ]);
    let mut lines = vec![join_strings(&cells, "  ")];
    let ghost first = chars::string_texts(lines@);
    let mut i: usize = 0;
    while i < users.len()
        invariant
            i <= users@.len(),
            chars::string_texts(lines@) == first + users@.take(i as int).map_values(
                |u: UserSummary| user_row(u),
            ),
        decreases users@.len() - i,
    {
        let line = user_line(&users[i]);
        proof {
            lemma_row_added(
                lines@,
                line,
                first,
                users@,
                i as int,
                |u: UserSummary| user_row(u),
            );
        }
        lines.push(line);
        i += 1;
    }
    assert(users@.take(users@.len() as int) =~= users@);
    assert(chars::string_texts(lines@) =~= user_table(users@));
    lines
}

/// The first user of the list with that id.
pub open spec fn summary_of(users: Seq<UserSummary>, id: i64) -> Option<UserSummary>
    decreases users.len(),
{
    if users.len() == 0 {
        None
    } else if users[0].id == id {
        Some(users[0])
    } else {
        summary_of(users.drop_first(), id)
    }
}

fn find_summary(users: &Vec<UserSummary>, id: i64) -> (r: Option<usize>)
    ensures
        match r {
            Some(i) => i < users@.len() && summary_of(users@, id) == Some(users@[i as int]),
            None => summary_of(users@, id) is None,
        },
{
    let mut i: usize = 0;
    assert(users@.skip(0) =~= users@);
    while i < users.len()
        invariant
            i <= users@.len(),
            summary_of(users@, id) == summary_of(users@.skip(i as int), id),
        decreases users@.len() - i,
    {
        assert(users@.skip(i as int)[0] == users@[i as int]);
        if users[i].id == id {
            return Some(i);
        }
        assert(users@.skip(i as int).drop_first() =~= users@.skip(i + 1));
        i += 1;
    }
    None
}

pub open spec fn status_of(u: UserSummary) -> Seq<char> {
    match (u.banned, u.ban_reason) {
        (true, Some(reason)) => "status:   banned ("@ + reason@ + ")"@,
        (true, None) => "status:   banned"@,
        _ => "status:   ok"@,
    }
}

pub open spec fn key_row(k: KeyRecord) -> Seq<char> {
    "  ["@ + chars::decimal_int(k.id as int) + "] "@ + k.fingerprint@ + "  "@ + k.comment@
}

/// One user, with their SSH keys.
pub open spec fn user_page(a: Account, u: UserSummary, keys: Seq<KeyRecord>) -> Seq<Seq<char>> {
    seq![
        "id:       "@ + chars::decimal_int(a.id as int),
        "name:     "@ + a.username@,
        "role:     "@ + a.role.name(),
        status_of(u),
        "created:  "@ + u.created@,
        "posts:    "@ + chars::decimal_int(u.posts as int),
        "ssh keys: "@ + chars::decimal(keys.len()),
    ] + keys.map_values(|k: KeyRecord| key_row(k))
}

/// Shows one user; `users` is the list of all.
pub fn show_user(a: &Account, users: &Vec<UserSummary>, keys: &Vec<KeyRecord>) -> (r: Result<
    Vec<String>,
    String,
>)
    ensures
        match summary_of(users@, a.id) {
            Some(u) => r matches Ok(lines) && chars::string_texts(lines@) == user_page(
                *a,
                u,
                keys@,
            ),
            None => r matches Err(e) && e@ == "user vanished"@,
        },
{
    let at: usize = match find_summary(users, a.id) {
        Some(i) => i,
        None => return Err("user vanished".to_owned()),
    };
    let u = &users[at];
    let status = if u.banned {
        match &u.ban_reason {
            Some(reason) => cat3("status:   banned (", reason, ")"),
            None => "status:   banned".to_owned(),
        }
    } else {
        "status:   ok".to_owned()
    };
    let mut lines = vec![
        cat2("id:       ", &int_text(a.id)),
        cat2("name:     ", &a.username),
        cat2("role:     ", a.role.as_str()),
        status,
        cat2("created:  ", &u.created),
        cat2("posts:    ", &int_text(u.posts)),
        cat2("ssh keys: ", &size_text(keys.len())),
    ];
    let ghost first = chars::string_texts(lines@);
    let mut i: usize = 0;
    while i < keys.len()
        invariant
            i <= keys@.len(),
            chars::string_texts(lines@) == first + keys@.take(i as int).map_values(
                |k: KeyRecord| key_row(k),
            ),
        decreases keys@.len() - i,
    {
        let k = &keys[i];
        let mut line = cat5("  [", &int_text(k.id), "] ", &k.fingerprint, "  ");
        line.append(&k.comment);
        proof {
            lemma_row_added(
                lines@,
                line,
                first,
                keys@,
                i as int,
                |k: KeyRecord| key_row(k),
            );
        }
        lines.push(line);
        i += 1;
    }
    assert(keys@.take(keys@.len() as int) =~= keys@);
    assert(chars::string_texts(lines@) =~= user_page(*a, *u, keys@));
    Ok(lines)
}

/// A text without the line breaks at its end.
pub open spec fn without_line_end(line: Seq<char>) -> Seq<char>
    decreases line.len(),
{
    if line.len() > 0 && (line.last() == '\r' || line.last() == '\n') {
        without_line_end(line.drop_last())
    } else {
        line
    }
}

/// The password on a line of input.
pub fn password_on_line(line: &str) -> (r: String)
    ensures
        r@ == without_line_end(line@),
{
    let mut cs = to_chars(line);
    while cs.len() > 0 && (cs[cs.len() - 1] == '\r' || cs[cs.len() - 1] == '\n')
        invariant
            without_line_end(cs@) == without_line_end(line@),
        decreases cs@.len(),
    {
        cs.pop();
    }
    from_chars(&cs)
}

/// The password that was typed twice.
pub fn repeated_password(first: String, again: &str) -> (r: Result<String, String>)
    ensures
        content::outcome(r) == (if first@ == again@ {
            Ok::<Seq<char>, Seq<char>>(first@)
        } else {
            Err("passwords don't match"@)
        }),
{
    if same(&first, again) {
        Ok(first)
    } else {
        Err("passwords don't match".to_owned())
    }
}

/// A password that has been read, if it will do for `username`.
pub fn read_password(username: &str, password: String) -> (r: Result<String, String>)
    ensures
        content::outcome(r) == match auth::password_verdict(username@, password@) {
            Ok(()) => Ok::<Seq<char>, Seq<char>>(password@),
            Err(e) => Err(e),
        },
{
    match validate_password(username, &password) {
        Ok(()) => Ok(password),
        Err(e) => Err(e),
    }
}

/// Whether an administrator may give an account that name. Reserved names
/// are theirs to give.
pub fn new_user_name(name: &str) -> (r: Result<(), String>)
    ensures
        auth::verdict(r) == auth::username_format(name@),
{
    validate_username_format(name)
}

/// The account of a user that the database has tried to create, or what is
/// said instead.
pub fn user_created(name: &str, result: Result<i64, DbError>) -> (r: Result<i64, String>)
    ensures
        crate::boards::id_outcome(r) == match result {
            Ok(id) => Ok::<i64, Seq<char>>(id),
            Err(DbError::Duplicate) => Err("a user named "@ + name@ + " already exists"@),
            Err(e) => Err(failure("creating user"@, e)),
        },
{
    match result {
        Ok(id) => Ok(id),
        Err(DbError::Duplicate) => Err(cat3("a user named ", name, " already exists")),
        Err(e) => Err(db_failure("creating user", e)),
    }
}

/// What is said of a new account.
pub fn user_welcome(name: &str, id: i64, sysop: bool) -> (r: String)
    ensures
        r@ == (if sysop {
            "Created sysop "@
        } else {
            "Created user "@
        }) + name@ + " (id "@ + chars::decimal_int(id as int) + ")."@,
{
    let made = if sysop {
        "Created sysop "
    } else {
        "Created user "
    };
    cat5(made, name, " (id ", &int_text(id), ").")
}

/// What comes of giving a user a role.
pub enum RoleChange {
    /// They have it already; this is said.
    Already(String),
    /// The database sets it; then this is said.
    Change(String),
}

/// Gives a user a role, unless they have it.
pub fn set_role(a: &Account, role: Role) -> (r: RoleChange)
    ensures
        if a.role == role {
            r matches RoleChange::Already(text) && text@ == a.username@ + " is already "@
                + role.name() + "."@
        } else {
            r matches RoleChange::Change(text) && text@ == a.username@ + " is now "@ + role.name()
                + "."@
        },
{
    if a.role == role {
        RoleChange::Already(cat4(&a.username, " is already ", role.as_str(), "."))
    } else {
        RoleChange::Change(cat4(&a.username, " is now ", role.as_str(), "."))
    }
}

/// What is said once a user is suspended.
pub fn user_banned(a: &Account) -> (r: String)
    ensures
        r@ == "Banned "@ + a.username@
            + ". Connected sessions are dropped within about 10 seconds."@,
{
    cat3("Banned ", &a.username, ". Connected sessions are dropped within about 10 seconds.")
}

/// What is said once a suspension is lifted.
pub fn user_unbanned(a: &Account) -> (r: String)
    ensures
        r@ == "Unbanned "@ + a.username@ + "."@,
{
    cat3("Unbanned ", &a.username, ".")
}

/// What is said once a user has a new password.
pub fn password_changed(a: &Account) -> (r: String)
    ensures
        r@ == "Password for "@ + a.username@ + " changed."@,
{
    cat3("Password for ", &a.username, " changed.")
}

/// What is said once an SSH key is gone.
pub fn key_removed(key_id: i64) -> (r: String)
    ensures
        r@ == "Removed key "@ + chars::decimal_int(key_id as int) + "."@,
{
    cat3("Removed key ", &int_text(key_id), ".")
}

} // verus!
