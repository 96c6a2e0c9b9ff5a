//! Laws of the chat screen: what a typed line says, and what others see.

use vstd::prelude::*;

use crate::chars;
use crate::chat;
use crate::chat::{ChatEvent, ChatKind};
use crate::laws::chat as laws_chat;
use crate::ui::chat as screen;
use crate::ui::chat::{ChatAction, ChatLine, ChatPane, ChatScreen, Saying};
use crate::ui::input::Key;
use crate::ui::paint;
use crate::ui::paint::{Color, Line};
use crate::ui::text;

verus! {

/// A text that neither starts nor ends with whitespace.
pub open spec fn snug(s: Seq<char>) -> bool {
    s.len() > 0 && !chars::whitespace(s.first()) && !chars::whitespace(s.last())
}

/// Enter says what was typed, to the letter, and empties the line. What
/// starts with a slash is not said, and nothing is said of an empty line.
pub proof fn law_lines_are_said_as_typed(screen: &mut ChatScreen, r: ChatAction)
    requires
        call_ensures(ChatScreen::handle, (screen, Key::Enter), r),
    ensures
        snug(old(screen)@.input.text) && old(screen)@.input.text[0] != '/' ==> (
        r matches ChatAction::Say { text, action } && text@ == old(screen)@.input.text && !action
            && final(screen)@.input.text.len() == 0 && final(screen)@.lines == old(screen)@.lines
            && final(screen)@.members == old(screen)@.members && final(screen)@.offset == 0),
        old(screen)@.input.text.len() == 0 ==> r is Nothing && final(screen)@ == old(screen)@,
        r matches ChatAction::Say { text, action } ==> final(screen)@.input.text.len() == 0
            && text@.len() > 0,
{
}

/// Esc leaves; every other key but Enter says nothing, and no key but Enter
/// touches the lines or the members.
pub proof fn law_only_enter_says(screen: &mut ChatScreen, key: Key, r: ChatAction)
    requires
        call_ensures(ChatScreen::handle, (screen, key), r),
        key != Key::Enter,
    ensures
        key == Key::Esc ==> r is Leave && final(screen)@ == old(screen)@,
        key != Key::Esc ==> r is Nothing,
        final(screen)@.lines == old(screen)@.lines,
        final(screen)@.members == old(screen)@.members,
        final(screen)@.last_seq == old(screen)@.last_seq,
{
}

/// After `/me` and a blank comes what is done. It is said as an action, to
/// the letter.
pub proof fn law_actions_are_said(
    screen: &mut ChatScreen,
    what: Seq<char>,
    command: Seq<char>,
    r: ChatAction,
)
    requires
        call_ensures(ChatScreen::handle, (screen, Key::Enter), r),
        command == seq!['m', 'e'] || command == seq!['M', 'E'],
        snug(what),
        old(screen)@.input.text == seq!['/'] + command + seq![' '] + what,
    ensures
        r matches ChatAction::Say { text, action } && text@ == what && action,
        final(screen)@.input.text.len() == 0,
        final(screen)@.lines == old(screen)@.lines,
        final(screen)@.members == old(screen)@.members,
{
    let typed = old(screen)@.input.text;
    let tail = typed.drop_first();
    reveal_strlit("me");
    assert("me"@ =~= seq!['m', 'e']);
    assert(typed.last() == what.last());
    assert(tail[0] == command[0]);
    assert(tail.drop_first()[0] == command[1]);
    assert(tail.drop_first().drop_first()[0] == ' ');
    reveal_with_fuel(screen::first_space, 3);
    assert(screen::first_space(tail) == 2);
    assert(tail.take(2) =~= command);
    assert(tail.skip(3) =~= what);
    assert(chars::folded(command) =~= "me"@);
    assert(chars::trim(typed) == typed);
}

/// What is typed goes into the line to be said, at its cursor.
pub proof fn law_typing_in_the_chat(screen: &mut ChatScreen, c: char, r: ChatAction)
    requires
        call_ensures(ChatScreen::handle, (screen, Key::Char(c)), r),
        old(screen)@.input.wf(),
        !chars::control(c),
        old(screen)@.input.text.len() < old(screen)@.input.max_len,
    ensures
        r is Nothing,
        final(screen)@.input.text == old(screen)@.input.text.insert(old(screen)@.input.cursor, c),
        final(screen)@.input.cursor == old(screen)@.input.cursor + 1,
        final(screen).offset == old(screen).offset,
{
}

/// A command of ASCII letters, whatever their case: /quit, /exit and /leave
/// leave; /who tells who is here; one that is not known is told to be.
#[verifier::rlimit(50)]
pub proof fn law_commands(screen: &mut ChatScreen, command: Seq<char>, r: ChatAction)
    requires
        call_ensures(ChatScreen::handle, (screen, Key::Enter), r),
        command.len() > 0,
        forall|i: int| 0 <= i < command.len() ==> chars::ascii_letter(#[trigger] command[i]),
        old(screen)@.input.text == seq!['/'] + command,
    ensures
        final(screen)@.input.text.len() == 0,
        final(screen)@.members == old(screen)@.members,
        ({
            let name = chars::folded(command);
            let told = final(screen)@.lines;
            &&& name == "quit"@ || name == "exit"@ || name == "leave"@ <==> r is Leave
            &&& !(r is Leave) ==> r is Nothing && told.len() > 0
            &&& name == "who"@ ==> told.last() == Saying::System(
                "In chat ("@ + chars::decimal(old(screen)@.members.len()) + "): "@ + chars::joined(
                    old(screen)@.members.map_values(|p: chat::Person| p.name),
                    ", "@,
                ),
            )
            &&& name != "quit"@ && name != "exit"@ && name != "leave"@ && name != "who"@ && name
                != "me"@ && name != "help"@ ==> told.last() == Saying::System(
                "Unknown command /"@ + name + ". Try /help."@,
            )
        }),
{
    let typed = old(screen)@.input.text;
    reveal_strlit("me");
    reveal_strlit("who");
    reveal_strlit("quit");
    reveal_strlit("exit");
    reveal_strlit("leave");
    reveal_strlit("help");
    assert(typed.last() == command[command.len() - 1]);
    assert(chars::ascii_letter(command[command.len() - 1]));
    assert(chars::trim(typed) == typed);
    assert(typed.drop_first() =~= command);
    lemma_no_space(command);
    assert(command.take(command.len() as int) =~= command);
    assert(screen::spelled(command));
    assert(vstd::utf8::is_ascii_chars(command)) by {
        assert forall|i: int| 0 <= i < command.len() implies '\0' <= #[trigger] command[i]
            <= '\u{7f}' by {
            assert(chars::ascii_letter(command[i]));
        }
    }
    assert("quit"@[0] == 'q' && "exit"@[0] == 'e' && "leave"@[0] == 'l' && "who"@[0] == 'w'
        && "me"@[0] == 'm' && "help"@[0] == 'h');
    assert(screen::names_of(old(screen)@.members) == old(screen)@.members.map_values(
        |p: chat::Person| p.name,
    ));
}

proof fn lemma_no_space(s: Seq<char>)
    requires
        forall|i: int| 0 <= i < s.len() ==> chars::ascii_letter(#[trigger] s[i]),
    ensures
        screen::first_space(s) == s.len(),
    decreases s.len(),
{
    if s.len() > 0 {
        let rest = s.drop_first();
        assert(chars::ascii_letter(s[0]));
        assert forall|i: int| 0 <= i < rest.len() implies chars::ascii_letter(#[trigger] rest[i]) by {
            assert(rest[i] == s[i + 1]);
        }
        lemma_no_space(rest);
    }
}

/// Up and PgUp go back in what was said, Down and PgDn forward, as far as
/// there is anything; Home and End, with nothing typed, go to either end.
pub proof fn law_scrolling_in_the_chat(screen: &mut ChatScreen, key: Key, r: ChatAction)
    requires
        call_ensures(ChatScreen::handle, (screen, key), r),
        old(screen).height.value > 2,
        old(screen).total.value >= old(screen).height.value,
        old(screen).total.value < usize::MAX / 2,
        old(screen).offset <= old(screen).total.value - old(screen).height.value,
    ensures
        ({
            let from = old(screen).offset as int;
            let to = final(screen).offset as int;
            let most = old(screen).total.value - old(screen).height.value;
            let page = old(screen).height.value - 1;
            &&& key == Key::Up ==> to == if from < most {
                from + 1
            } else {
                most
            }
            &&& key == Key::Down ==> to == if from > 0 {
                from - 1
            } else {
                0
            }
            &&& key == Key::PageUp ==> to == if from + page < most {
                from + page
            } else {
                most
            }
            &&& key == Key::PageDown ==> to == if from > page {
                from - page
            } else {
                0
            }
            &&& key == Key::End && old(screen)@.input.text.len() == 0 ==> to == 0
            &&& key == Key::Home && old(screen)@.input.text.len() == 0 ==> to == most
        }),
{
}

/// Scrolled up, the view shows the part of all lines that ends so many lines
/// before the newest, and tells in its last line how many are below.
pub proof fn law_the_view_of_the_chat(
    screen: &mut ChatScreen,
    whole: &mut ChatScreen,
    width: usize,
    height: usize,
    tall: usize,
    r: ChatPane,
    all: ChatPane,
    i: int,
)
    requires
        call_ensures(ChatScreen::draw, (screen, width, height), r),
        call_ensures(ChatScreen::draw, (whole, width, tall), all),
        old(whole)@.lines == old(screen)@.lines,
        old(whole)@.me == old(screen)@.me,
        old(whole)@.loaded == old(screen)@.loaded,
        old(whole).offset == 0,
        all.lines@.len() < tall,
        height > 0,
        height + old(screen).offset <= all.lines@.len(),
        0 <= i < height,
    ensures
        r.lines@.len() == height,
        final(screen).total.value == all.lines@.len(),
        final(screen).height.value == height,
        i < height - 1 || old(screen).offset == 0 ==> r.lines@[i]@ == all.lines@[all.lines@.len()
            - old(screen).offset - height + i]@,
{
    let chat = old(screen)@;
    let other = old(whole)@;
    let n = chat.lines.len() as int;
    lemma_same_lines(chat, other, n, width as int);
    let lines = chat.lines_shown(n, width as int);
    let shown = paint::line_models(all.lines@);
    assert(shown.len() == all.lines@.len());
    assert(lines.len() <= tall) by {
        if lines.len() > tall {
            assert(shown.len() == tall);
        }
    }
    assert(lines.subrange(0, lines.len() as int) =~= lines);
    assert(shown == lines);
    let k = all.lines@.len() - old(screen).offset - height + i;
    assert(shown[k] == all.lines@[k]@);
    assert(paint::line_models(r.lines@).len() == r.lines@.len());
    assert(paint::line_models(r.lines@)[i] == r.lines@[i]@);
}

proof fn lemma_same_lines(a: screen::Chatting, b: screen::Chatting, n: int, width: int)
    requires
        a.lines == b.lines,
        a.me == b.me,
        a.loaded == b.loaded,
    ensures
        a.lines_shown(n, width) == b.lines_shown(n, width),
    decreases n,
{
    if n > 0 {
        lemma_same_lines(a, b, n - 1, width);
    }
}

/// What is announced is shown as the newest line: a message with its sender,
/// rank, text and time, to the letter, arrivals and departures with the name
/// and the time. The lines before it stay, but for the oldest when there are
/// too many. What was seen before is not shown again, and what comes before
/// the room is known waits.
pub proof fn law_what_is_announced_is_shown(screen: &mut ChatScreen, event: ChatEvent, r: bool)
    requires
        call_ensures(ChatScreen::on_event, (screen, event), r),
        old(screen)@.lines.len() <= 500,
    ensures
        r == (old(screen).loaded && event.seq > old(screen).last_seq),
        r ==> {
            let before = old(screen).lines@;
            let lines = final(screen).lines@;
            &&& lines.len() == if before.len() < 500 {
                before.len() + 1
            } else {
                500
            }
            &&& forall|i: int|
                0 <= i < lines.len() - 1 ==> (#[trigger] lines[i])@ == before[i + before.len() + 1
                    - lines.len()]@
            &&& match event.kind {
                ChatKind::Message { from, is_sysop, text, action } => lines.last() matches ChatLine::Message {
                    at,
                    from: shown,
                    is_sysop: sysop,
                    text: said,
                    action: acted,
                } && at == event.at && shown@ == from@ && sysop == is_sysop && said@ == text@
                    && acted == action,
                ChatKind::Join { name, .. } => lines.last() matches ChatLine::Join {
                    at,
                    name: shown,
                } && at == event.at && shown@ == name@,
                ChatKind::Leave { name } => lines.last() matches ChatLine::Leave {
                    at,
                    name: shown,
                } && at == event.at && shown@ == name@,
            }
            &&& final(screen).last_seq == event.seq
            &&& final(screen)@.input == old(screen)@.input
        },
        !r ==> final(screen)@.lines == old(screen)@.lines && final(screen)@.members == old(screen)@.members,
        !old(screen).loaded && old(screen).pending@.len() < 256 ==> final(screen).pending@.len()
            == old(screen).pending@.len() + 1 && final(screen).pending@.last()@ == event@,
{
    let before = old(screen).lines@;
    let lines = final(screen).lines@;
    let shown = final(screen)@.lines;
    assert(screen::sayings(lines) == shown);
    if r {
        assert(old(screen)@.lines.len() == before.len());
        assert(lines.last()@ == shown.last());
        assert forall|i: int| 0 <= i < lines.len() - 1 implies (#[trigger] lines[i])@ == before[i
            + before.len() + 1 - lines.len()]@ by {
            assert(lines[i]@ == shown[i]);
            assert(shown[i] == old(screen)@.lines[i + before.len() + 1 - lines.len()]);
        }
    }
    if !old(screen).loaded && old(screen).pending@.len() < 256 {
        assert(chat::entries(final(screen).pending@).last() == event@);
        assert(chat::entries(final(screen).pending@).len() == final(screen).pending@.len());
    }
}

/// The list of who is here follows what is announced: whoever joins is on it,
/// whoever leaves is not, a message changes nothing, and nobody else comes or
/// goes.
pub proof fn law_members_come_and_go(
    screen: &mut ChatScreen,
    event: ChatEvent,
    someone: Seq<char>,
    r: bool,
)
    requires
        call_ensures(ChatScreen::on_event, (screen, event), r),
        r,
        laws_chat::names_differ(old(screen)@.members),
    ensures
        laws_chat::names_differ(final(screen)@.members),
        event.kind is Message ==> final(screen)@.members == old(screen)@.members,
        event.kind matches ChatKind::Join { name, .. } ==> chat::named(
            final(screen)@.members,
            someone,
        ) == (chat::named(old(screen)@.members, someone) || someone == name@),
        event.kind matches ChatKind::Leave { name } ==> chat::named(
            final(screen)@.members,
            someone,
        ) == (chat::named(old(screen)@.members, someone) && someone != name@),
{
    let members = old(screen)@.members;
    match event.kind {
        ChatKind::Message { .. } => {},
        ChatKind::Join { name, is_sysop } => {
            if !chat::named(members, name@) {
                laws_chat::lemma_joined_members(members, chat::Person { name: name@, is_sysop });
            }
        },
        ChatKind::Leave { name } => {
            laws_chat::lemma_without(members, name@);
        },
    }
}

/// A message that fits on a line is shown on one: the time of day, the sender
/// and the text, to the letter.
pub proof fn law_messages_show_their_sender(
    screen: &ChatScreen,
    line: &ChatLine,
    width: usize,
    r: Vec<Line>,
)
    requires
        call_ensures(ChatScreen::render_line, (screen, line, width), r),
        line is Message,
        !line->Message_text@.contains('\n'),
        width > line->Message_from@.len() + 20 + text::text_columns(line->Message_text@),
    ensures
        r@.len() == 1,
        r@[0].spans@.len() == 2,
        r@[0].spans@[1].text@ == line->Message_text@,
        !line->Message_action ==> r@[0].spans@[0].text@ == "["@ + screen::clock(line->Message_at)
            + "] <"@ + line->Message_from@ + "> "@,
        line->Message_action ==> r@[0].spans@[0].text@ == "["@ + screen::clock(line->Message_at)
            + "] * "@ + line->Message_from@ + " "@,
        !line->Message_action ==> r@[0].spans@[0].style.fg == Some(
            if line->Message_is_sysop {
                Color::Yellow
            } else if line->Message_from@ == screen.me@ {
                Color::Green
            } else {
                Color::Cyan
            },
        ),
{
    let said = line->Message_text@;
    let p = line@.parts(screen.me@);
    law_times_of_day(line->Message_at);
    reveal_strlit("[");
    reveal_strlit("] <");
    reveal_strlit("> ");
    reveal_strlit("] * ");
    reveal_strlit(" ");
    let indent = screen::hanging_indent(p.prefix.text, width as int);
    lemma_one_line(said);
    crate::laws::text::law_fitting_lines_are_kept(said, width - indent);
    assert(paint::line_models(r@) == screen::display_lines(p, width as int));
    assert(text::wrapped(said, width - indent) == seq![said]);
    assert(p.text.text == said);
    assert(screen::display_lines(p, width as int).len() == 1);
    assert(paint::line_models(r@).len() == r@.len());
    assert(paint::line_models(r@)[0] == r@[0]@);
    assert(r@[0]@.len() == r@[0].spans@.len());
    assert(r@[0]@[0] == r@[0].spans@[0]@);
    assert(r@[0]@[1] == r@[0].spans@[1]@);
}

/// The newest line is in view unless the reader has scrolled up, and the
/// title and the list beside it tell how many are here and who.
pub proof fn law_the_newest_is_in_view(
    screen: &mut ChatScreen,
    width: usize,
    height: usize,
    newest: Vec<Line>,
    r: ChatPane,
)
    requires
        call_ensures(ChatScreen::draw, (screen, width, height), r),
        old(screen).lines@.len() > 0,
        call_ensures(
            ChatScreen::render_line,
            (old(screen), &old(screen).lines@.last(), width),
            newest,
        ),
        newest@.len() > 0,
        old(screen).offset == 0,
        height > 0,
    ensures
        r.lines@.len() <= height,
        r.lines@.len() > 0,
        r.lines@.last()@ == newest@.last()@,
        final(screen)@.lines == old(screen)@.lines,
        final(screen)@.members == old(screen)@.members,
        r.title@ == "Chat · "@ + chars::decimal(old(screen).members@.len())
            + " here · times are UTC"@,
        r.members@.len() == old(screen).members@.len(),
        forall|i: int|
            0 <= i < r.members@.len() ==> (#[trigger] r.members@[i]).spans@[0].text@ == old(screen).members@[i].name@ && (r.members@[i].spans@.len() == 2) == old(screen).members@[i].is_sysop,
{
    let chat = old(screen)@;
    let n = chat.lines.len() as int;
    let w = width as int;
    assert(chat.lines[n - 1] == old(screen).lines@.last()@);
    assert(paint::line_models(newest@) == chat.rendered(chat.lines[n - 1], w));
    let all = chat.lines_shown(n, w);
    assert(all == chat.lines_shown(n - 1, w) + paint::line_models(newest@));
    assert(all.last() == paint::line_models(newest@).last());
    assert(paint::line_models(newest@).last() == newest@.last()@);
    assert(paint::line_models(r.lines@).len() == r.lines@.len());
    assert(paint::line_models(r.lines@).last() == r.lines@.last()@);
    assert(paint::line_models(r.members@).len() == r.members@.len());
    assert(chat.members.len() == old(screen).members@.len());
    assert forall|i: int| 0 <= i < r.members@.len() implies (
    #[trigger] r.members@[i]).spans@[0].text@ == old(screen).members@[i].name@ && (
    r.members@[i].spans@.len() == 2) == old(screen).members@[i].is_sysop by {
        let person = old(screen).members@[i]@;
        assert(chat.members[i] == person);
        assert(paint::line_models(r.members@)[i] == r.members@[i]@);
        assert(r.members@[i]@ == screen::member_line(person));
        assert(r.members@[i]@.len() == r.members@[i].spans@.len());
        assert(r.members@[i]@[0] == r.members@[i].spans@[0]@);
    }
}

proof fn lemma_one_line(s: Seq<char>)
    requires
        !s.contains('\n'),
    ensures
        chars::split(s, '\n') == seq![s],
    decreases s.len(),
{
    if s.len() > 0 {
        let front = s.drop_last();
        assert(!front.contains('\n')) by {
            if front.contains('\n') {
                let i = choose|i: int| 0 <= i < front.len() && front[i] == '\n';
                assert(s[i] == '\n');
            }
        }
        lemma_one_line(front);
        assert(s[s.len() - 1] == s.last());
        let before = chars::split(front, '\n');
        assert(before.last().push(s.last()) =~= s);
        assert(before.drop_last().push(s) =~= seq![s]);
    } else {
        assert(s =~= Seq::empty());
    }
}

/// A number that is written down in decimal reads back as itself.
pub proof fn law_numbers_read_back(n: nat)
    ensures
        chars::number(chars::decimal(n)) == n,
        chars::decimal(n).len() >= 1,
    decreases n,
{
    reveal_with_fuel(chars::number, 2);
    let last = chars::digit((n % 10) as int);
    assert(last as u32 == 0x30 + n % 10);
    if n >= 10 {
        law_numbers_read_back(n / 10);
        let front = chars::decimal(n / 10);
        assert(front.push(last).drop_last() =~= front);
        assert(n == n / 10 * 10 + n % 10);
    } else {
        assert(seq![last].drop_last() =~= Seq::<char>::empty());
    }
}

pub proof fn lemma_two_digits(n: nat)
    requires
        n < 100,
    ensures
        chars::two_digits(n).len() == 2,
        chars::number(chars::two_digits(n)) == n,
{
    law_numbers_read_back(n);
    if n < 10 {
        reveal_with_fuel(chars::number, 3);
        let d = chars::digit(n as int);
        let s = chars::two_digits(n);
        assert(d as u32 == 0x30 + n);
        assert(s =~= seq!['0', d]);
        assert(s.drop_last() =~= seq!['0']);
        assert(seq!['0'].drop_last() =~= Seq::<char>::empty());
    } else {
        reveal_with_fuel(chars::decimal, 2);
    }
}

/// The time of day has two digits for the hour and two for the minute, in
/// that order.
#[verifier::rlimit(50)]
pub proof fn law_times_of_day(at: u64)
    ensures
        screen::clock(at).len() == 5,
        screen::clock(at)[2] == ':',
        ({
            let hour = chars::number(screen::clock(at).take(2));
            let minute = chars::number(screen::clock(at).skip(3));
            &&& hour < 24
            &&& minute < 60
            &&& hour * 3600 + minute * 60 <= at % 86_400 < hour * 3600 + minute * 60 + 60
        }),
{
    reveal_strlit(":");
    let secs = at % 86_400;
    let h = (secs / 3600) as nat;
    let m = (secs % 3600 / 60) as nat;
    lemma_two_digits(h);
    lemma_two_digits(m);
    assert(h < 24 && m < 60 && h * 3600 + m * 60 <= secs < h * 3600 + m * 60 + 60);
    assert(screen::clock(at).take(2) =~= chars::two_digits(h));
    assert(screen::clock(at).skip(3) =~= chars::two_digits(m));
}

} // verus!
