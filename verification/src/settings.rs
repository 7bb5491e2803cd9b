//! Editing the user's settings in a dialogue of lines: a prompt is written,
//! one line is read, and the line becomes the setting's new value.

use vstd::prelude::*;
use vstd::string::*;
use crate::protocol::ConnectionProtocol;
use crate::text::{
    chars_of, decimal, parse_unsigned, push_decimal, string_of, trim, trimmed, unsigned_of, views,
};
use crate::tier::PlanTier;
use crate::user::{UserConfig, UserConfigView};

verus! {

/// What is written after a line that picks no option.
pub const RETRY: &'static str = "Enter a 𝑣𝑎𝑙𝑖𝑑 number\n";

/// What is written before the secret is read.
pub const PASSWORD_PROMPT: &'static str = "Enter password: \n";

/// What is written before one setting is picked for editing.
pub const MENU: &'static str =
    "Options: \n0) Username\n1) Password\n2) Tier\n3) Protocol\nEnter Option: \n";

/// Why a dialogue ended without a new value.
#[derive(Debug, PartialEq, Eq, Structural, Copy, Clone)]
pub enum SettingsError {
    /// The input ended before a valid option was picked.
    EndOfInput,
    /// The line that was to pick a setting spells no number up to 255.
    GarbageValue,
}

/// One of the settings that a dialogue edits.
#[derive(Debug, PartialEq, Eq, Structural, Copy, Clone)]
pub enum Setting {
    Username,
    Password,
    Tier,
    Protocol,
}

impl Setting {
    /// The settings in the order of the menu, which is also the order in
    /// which all of them are asked for.
    pub open spec fn menu() -> Seq<Setting> {
        seq![Setting::Username, Setting::Password, Setting::Tier, Setting::Protocol]
    }

    /// The setting that the number `n` names in the menu, if it names one.
    pub open spec fn at(n: nat) -> Option<Setting> {
        if n < Setting::menu().len() {
            Some(Setting::menu()[n as int])
        } else {
            None
        }
    }

    /// The name under which the setting stands in the menu.
    pub open spec fn label(self) -> Seq<char> {
        match self {
            Setting::Username => "Username"@,
            Setting::Password => "Password"@,
            Setting::Tier => "Tier"@,
            Setting::Protocol => "Protocol"@,
        }
    }

    /// The setting that the number `n` names in the menu, if it names one.
    pub fn from_index(n: usize) -> (r: Option<Setting>)
        ensures
            r == Setting::at(n as nat),
    {
        if n == 0 {
            Some(Setting::Username)
        } else if n == 1 {
            Some(Setting::Password)
        } else if n == 2 {
            Some(Setting::Tier)
        } else if n == 3 {
            Some(Setting::Protocol)
        } else {
            None
        }
    }

    /// The settings in the order of the menu, which is also the order in
    /// which all of them are asked for.
    pub fn order() -> (v: Vec<Setting>)
        ensures
            v@ == Setting::menu(),
    {
        let mut v: Vec<Setting> = Vec::new();
        v.push(Setting::Username);
        v.push(Setting::Password);
        v.push(Setting::Tier);
        v.push(Setting::Protocol);
        assert(v@ =~= Setting::menu());
        v
    }

    /// The name under which the setting stands in the menu.
    pub fn name(self) -> (s: &'static str)
        ensures
            s@ == self.label(),
    {
        match self {
            Setting::Username => "Username",
            Setting::Password => "Password",
            Setting::Tier => "Tier",
            Setting::Protocol => "Protocol",
        }
    }
}

/// The lines of a text, each with the line feed that closes it. The last
/// line is without one where the text does not end in a line feed.
pub open spec fn lines_of(text: Seq<char>) -> Seq<Seq<char>>
    decreases text.len(),
{
    if text.len() == 0 {
        Seq::<Seq<char>>::empty()
    } else {
        let head = lines_of(text.drop_last());
        if head.len() > 0 && head.last().last() != '\n' {
            head.update(head.len() - 1, head.last().push(text.last()))
        } else {
            head.push(seq![text.last()])
        }
    }
}

/// A source of lines with a fixed content, read from its start.
pub struct LineReader {
    lines: Vec<Vec<char>>,
    next: usize,
}

impl LineReader {
    /// The lines that are still to be read, each with the line feed that
    /// closes it, if one does.
    pub closed spec fn remaining(&self) -> Seq<Seq<char>> {
        if self.next <= self.lines@.len() {
            views(self.lines@).skip(self.next as int)
        } else {
            Seq::<Seq<char>>::empty()
        }
    }

    /// A reader of the lines of `input`.
    pub fn new(input: &str) -> (reader: LineReader)
        ensures
            reader.remaining() == lines_of(input@),
    {
        let chars = chars_of(input);
        let mut lines: Vec<Vec<char>> = Vec::new();
        let mut cur: Vec<char> = Vec::new();
        let mut i: usize = 0;
        assert(chars@.take(0) =~= Seq::<char>::empty());
        assert(views(lines@) =~= lines_of(chars@.take(0)));
        while i < chars.len()
            invariant
                i <= chars.len(),
                forall|k: int|
                    0 <= k < lines@.len() ==> (#[trigger] lines@[k])@.len() > 0 && lines@[k]@.last()
                        == '\n',
                cur@.len() > 0 ==> cur@.last() != '\n',
                lines_of(chars@.take(i as int)) == (if cur@.len() == 0 {
                    views(lines@)
                } else {
                    views(lines@).push(cur@)
                }),
            decreases chars.len() - i,
        {
            let c = chars[i];
            let ghost done = views(lines@);
            let ghost open_line = cur@;
            let ghost head = lines_of(chars@.take(i as int));
            proof {
                assert(chars@.take(i + 1).drop_last() =~= chars@.take(i as int));
                assert(chars@.take(i + 1).last() == c);
                if open_line.len() == 0 && done.len() > 0 {
                    assert(done.last() == lines@[lines@.len() - 1]@);
                }
            }
            cur.push(c);
            if c == '\n' {
                lines.push(cur);
                cur = Vec::new();
                proof {
                    if open_line.len() == 0 {
                        assert(open_line.push(c) =~= seq![c]);
                        assert(views(lines@) =~= head.push(seq![c]));
                    } else {
                        assert(views(lines@) =~= head.update(
                            head.len() - 1,
                            head.last().push(c),
                        ));
                    }
                }
            } else {
                proof {
                    if open_line.len() == 0 {
                        assert(cur@ =~= seq![c]);
                        assert(views(lines@).push(cur@) =~= head.push(seq![c]));
                    } else {
                        assert(views(lines@).push(cur@) =~= head.update(
                            head.len() - 1,
                            head.last().push(c),
                        ));
                    }
                }
            }
            i += 1;
        }
        assert(chars@.take(chars.len() as int) =~= chars@);
        if cur.len() > 0 {
            let ghost done = views(lines@);
            let ghost open_line = cur@;
            lines.push(cur);
            assert(views(lines@) =~= done.push(open_line));
        }
        let reader = LineReader { lines, next: 0 };
        assert(reader.remaining() =~= lines_of(input@));
        reader
    }

    /// Reads the next line, with the line feed that closes it, if one does;
    /// nothing at the end.
    pub fn read_line(&mut self) -> (line: Option<Vec<char>>)
        ensures
            match line {
                Some(l) => old(self).remaining().len() > 0 && l@ == old(self).remaining()[0]
                    && final(self).remaining() == old(self).remaining().drop_first(),
                None => old(self).remaining().len() == 0 && final(self).remaining() == old(
                    self,
                ).remaining(),
            },
    {
        if self.next >= self.lines.len() {
            return None;
        }
        let mut line: Vec<char> = Vec::new();
        let mut i: usize = 0;
        let n = self.lines[self.next].len();
        while i < n
            invariant
                self.next < self.lines.len(),
                n == self.lines@[self.next as int]@.len(),
                i <= n,
                line@ == self.lines@[self.next as int]@.take(i as int),
            decreases n - i,
        {
            line.push(self.lines[self.next][i]);
            assert(line@ =~= self.lines@[self.next as int]@.take(i + 1));
            i += 1;
        }
        assert(line@ =~= self.lines@[self.next as int]@);
        assert(old(self).remaining()[0] == self.lines@[self.next as int]@);
        self.next = self.next + 1;
        assert(final(self).remaining() =~= old(self).remaining().drop_first());
        Some(line)
    }
}

/// The state of a dialogue: the settings, the lines still to be read, all
/// that was written, and the error that ended it, if one did.
pub struct Session {
    pub user: UserConfigView,
    pub input: Seq<Seq<char>>,
    pub output: Seq<char>,
    pub error: Option<SettingsError>,
}

/// `s`, `n` times in a row.
pub open spec fn repeat(s: Seq<char>, n: nat) -> Seq<char>
    decreases n,
{
    if n == 0 {
        Seq::<char>::empty()
    } else {
        repeat(s, (n - 1) as nat) + s
    }
}

/// What is written before the line of a value is read.
pub open spec fn value_prompt(name: Seq<char>) -> Seq<char> {
    "Enter your "@ + name + ": "@
}

/// What is written before each line that is to pick an option.
pub open spec fn enum_prompt(name: Seq<char>) -> Seq<char> {
    "Enter "@ + name + ": "@
}

/// One line of the list of options: a tab, the option's number and its label.
pub open spec fn option_line(idx: nat, label: Seq<char>) -> Seq<char> {
    seq!['\t'] + decimal(idx) + ") "@ + label + seq!['\n']
}

/// The list of options, numbered from 0.
pub open spec fn option_lines(labels: Seq<Seq<char>>) -> Seq<char>
    decreases labels.len(),
{
    if labels.len() == 0 {
        Seq::<char>::empty()
    } else {
        option_lines(labels.drop_last()) + option_line(
            (labels.len() - 1) as nat,
            labels.last(),
        )
    }
}

/// What is written before the first prompt of an option: the setting's
/// name and the list of options.
pub open spec fn enum_intro(name: Seq<char>, labels: Seq<Seq<char>>) -> Seq<char> {
    name + ": \n"@ + option_lines(labels)
}

/// The option that a line picks among `count` options: the number that the
/// line spells, blanks around it set aside, if it is below `count`.
pub open spec fn choice_of(line: Seq<char>, count: nat) -> Option<nat> {
    if count == 0 {
        None
    } else {
        unsigned_of(trim(line), (count - 1) as nat)
    }
}

/// Reading lines until one picks an option: the option, if the input does
/// not end first, and the number of lines that were refused before.
pub open spec fn enum_rounds(lines: Seq<Seq<char>>, count: nat) -> (Option<nat>, nat)
    decreases lines.len(),
{
    if lines.len() == 0 {
        (None, 0)
    } else {
        match choice_of(lines[0], count) {
            Some(i) => (Some(i), 0),
            None => {
                let later = enum_rounds(lines.drop_first(), count);
                (later.0, later.1 + 1)
            },
        }
    }
}

/// All that the dialogue about an option writes: the list, then a prompt
/// before each line, and the retry message after each line that is refused.
pub open spec fn enum_written(name: Seq<char>, labels: Seq<Seq<char>>, lines: Seq<Seq<char>>) -> Seq<
    char,
> {
    enum_intro(name, labels) + repeat(
        enum_prompt(name) + RETRY@,
        enum_rounds(lines, labels.len()).1,
    ) + enum_prompt(name)
}

/// The number of lines that the dialogue about an option reads.
pub open spec fn enum_consumed(lines: Seq<Seq<char>>, count: nat) -> nat {
    let rounds = enum_rounds(lines, count);
    if rounds.0 is Some {
        rounds.1 + 1
    } else {
        rounds.1
    }
}

/// The value that the next line gives: the line without the blanks around
/// it, and the empty text at the end of the input.
pub open spec fn value_read(lines: Seq<Seq<char>>) -> Seq<char> {
    if lines.len() == 0 {
        Seq::<char>::empty()
    } else {
        trim(lines[0])
    }
}

/// A line without its line end: without the line feed that closes it, and
/// then without the carriage return before that line feed. A line that no
/// line feed closes stays as it is.
pub open spec fn without_line_end(line: Seq<char>) -> Seq<char> {
    if line.len() > 0 && line.last() == '\n' {
        let open_line = line.drop_last();
        if open_line.len() > 0 && open_line.last() == '\r' {
            open_line.drop_last()
        } else {
            open_line
        }
    } else {
        line
    }
}

/// The secret that the next line gives: the line without its line end, and
/// the empty text at the end of the input.
pub open spec fn secret_read(lines: Seq<Seq<char>>) -> Seq<char> {
    if lines.len() == 0 {
        Seq::<char>::empty()
    } else {
        without_line_end(lines[0])
    }
}

/// The input after one line was read, if there was one.
pub open spec fn after_line(lines: Seq<Seq<char>>) -> Seq<Seq<char>> {
    if lines.len() == 0 {
        lines
    } else {
        lines.drop_first()
    }
}

/// The labels of the tiers, in the order of their levels.
pub open spec fn tier_labels() -> Seq<Seq<char>> {
    PlanTier::all().map_values(|t: PlanTier| t.label())
}

/// The labels of the protocols, the default first.
pub open spec fn protocol_labels() -> Seq<Seq<char>> {
    ConnectionProtocol::all().map_values(|p: ConnectionProtocol| p.label())
}

/// The dialogue about the user's name. It cannot fail.
pub open spec fn ask_username(s: Session) -> Session {
    if s.error is Some {
        s
    } else {
        Session {
            user: UserConfigView { username: value_read(s.input), ..s.user },
            input: after_line(s.input),
            output: s.output + value_prompt("username"@),
            error: None,
        }
    }
}

/// The dialogue about the secret. It cannot fail.
pub open spec fn ask_password(s: Session) -> Session {
    if s.error is Some {
        s
    } else {
        Session {
            user: UserConfigView { password: secret_read(s.input), ..s.user },
            input: after_line(s.input),
            output: s.output + PASSWORD_PROMPT@,
            error: None,
        }
    }
}

/// The dialogue about the tier: lines are read until one picks a tier. At
/// the end of the input the tier stays as it was.
pub open spec fn ask_tier(s: Session) -> Session {
    if s.error is Some {
        s
    } else {
        let rounds = enum_rounds(s.input, tier_labels().len());
        Session {
            user: match rounds.0 {
                Some(i) => UserConfigView { tier: PlanTier::all()[i as int], ..s.user },
                None => s.user,
            },
            input: s.input.skip(enum_consumed(s.input, tier_labels().len()) as int),
            output: s.output + enum_written("Plan Tier"@, tier_labels(), s.input),
            error: if rounds.0 is Some {
                None
            } else {
                Some(SettingsError::EndOfInput)
            },
        }
    }
}

/// The dialogue about the protocol: lines are read until one picks a
/// protocol. At the end of the input the protocol stays as it was.
pub open spec fn ask_protocol(s: Session) -> Session {
    if s.error is Some {
        s
    } else {
        let rounds = enum_rounds(s.input, protocol_labels().len());
        Session {
            user: match rounds.0 {
                Some(i) => UserConfigView {
                    protocol: ConnectionProtocol::all()[i as int],
                    ..s.user
                },
                None => s.user,
            },
            input: s.input.skip(enum_consumed(s.input, protocol_labels().len()) as int),
            output: s.output + enum_written("Connection Protocol"@, protocol_labels(), s.input),
            error: if rounds.0 is Some {
                None
            } else {
                Some(SettingsError::EndOfInput)
            },
        }
    }
}

/// A dialogue that failed leaves the settings as they were at its start.
pub open spec fn settle(start: Session, end: Session) -> Session {
    if end.error is Some {
        Session { user: start.user, ..end }
    } else {
        end
    }
}

/// The dialogue about one setting.
pub open spec fn ask(setting: Setting, s: Session) -> Session {
    match setting {
        Setting::Username => ask_username(s),
        Setting::Password => ask_password(s),
        Setting::Tier => ask_tier(s),
        Setting::Protocol => ask_protocol(s),
    }
}

/// The dialogues about the settings `order`, one after the other. After
/// one of them has failed the others do not take place.
pub open spec fn ask_each(order: Seq<Setting>, s: Session) -> Session
    decreases order.len(),
{
    if order.len() == 0 {
        s
    } else {
        ask(order.last(), ask_each(order.drop_last(), s))
    }
}

/// The dialogue about every setting, in the order of the menu. The answers
/// are taken over together, or not at all.
pub open spec fn initialize_session(s: Session) -> Session {
    settle(s, ask_each(Setting::menu(), s))
}

/// The dialogue about one setting: the menu is written and one line is
/// read. A number that names a setting is followed by the dialogue about
/// that setting; any other number of at most 255 by nothing. A line that
/// spells no such number, or no line, ends the dialogue with an error.
pub open spec fn configure_session(s: Session) -> Session {
    let asked = Session { input: after_line(s.input), output: s.output + MENU@, ..s };
    if s.input.len() == 0 {
        Session { error: Some(SettingsError::GarbageValue), ..asked }
    } else {
        match unsigned_of(trim(s.input[0]), 255) {
            Some(n) => match Setting::at(n) {
                Some(setting) => ask(setting, asked),
                None => asked,
            },
            None => Session { error: Some(SettingsError::GarbageValue), ..asked },
        }
    }
}

/// The state of a dialogue that is under way.
pub open spec fn session(config: UserConfig, stdin: LineReader, stdout: String) -> Session {
    Session { user: config@, input: stdin.remaining(), output: stdout@, error: None }
}

/// The state of a dialogue that has ended with `r`.
pub open spec fn ended<T>(
    config: UserConfig,
    stdin: LineReader,
    stdout: String,
    r: Result<T, SettingsError>,
) -> Session {
    Session {
        user: config@,
        input: stdin.remaining(),
        output: stdout@,
        error: match r {
            Ok(_) => None,
            Err(e) => Some(e),
        },
    }
}

/// The texts of a list of labels.
pub open spec fn label_texts(labels: Seq<&'static str>) -> Seq<Seq<char>> {
    labels.map_values(|l: &'static str| l@)
}

/// The labels of the tiers, in the order of their levels.
pub fn tier_names() -> (names: Vec<&'static str>)
    ensures
        label_texts(names@) == tier_labels(),
{
    let mut names: Vec<&'static str> = Vec::new();
    names.push(PlanTier::Free.name());
    names.push(PlanTier::Basic.name());
    names.push(PlanTier::Plus.name());
    names.push(PlanTier::Visionary.name());
    assert(label_texts(names@) =~= tier_labels());
    names
}

/// The labels of the protocols, the default first.
pub fn protocol_names() -> (names: Vec<&'static str>)
    ensures
        label_texts(names@) == protocol_labels(),
{
    let mut names: Vec<&'static str> = Vec::new();
    names.push(ConnectionProtocol::UDP.name());
    names.push(ConnectionProtocol::TCP.name());
    assert(label_texts(names@) =~= protocol_labels());
    names
}

/// Writes the list of options, numbered from 0.
fn write_options(labels: &Vec<&'static str>, stdout: &mut String)
    ensures
        final(stdout)@ == old(stdout)@ + option_lines(label_texts(labels@)),
{
    let mut i: usize = 0;
    let ghost all = label_texts(labels@);
    assert(all.take(0) =~= Seq::<Seq<char>>::empty());
    assert(stdout@ =~= old(stdout)@ + option_lines(all.take(0)));
    while i < labels.len()
        invariant
            i <= labels.len(),
            all == label_texts(labels@),
            stdout@ == old(stdout)@ + option_lines(all.take(i as int)),
        decreases labels.len() - i,
    {
        let ghost before = stdout@;
        stdout.push('\t');
        push_decimal(stdout, i as u64);
        stdout.append(") ");
        stdout.append(labels[i]);
        stdout.push('\n');
        proof {
            assert(all.take(i + 1).drop_last() =~= all.take(i as int));
            assert(all.take(i + 1).last() == labels@[i as int]@);
            assert(stdout@ =~= before + option_line(i as nat, labels@[i as int]@));
            assert(stdout@ =~= old(stdout)@ + option_lines(all.take(i + 1)));
        }
        i += 1;
    }
    assert(all.take(labels.len() as int) =~= all);
}

/// Asks for one of the options `labels` under the heading `name`: writes
/// the list, then prompts and reads until a line picks an option. A line
/// that picks none is answered with the retry message. The result is the
/// option's number; at the end of the input there is none.
pub fn ask_enum(
    name: &str,
    labels: &Vec<&'static str>,
    stdin: &mut LineReader,
    stdout: &mut String,
) -> (r: Result<usize, SettingsError>)
    ensures
        final(stdout)@ == old(stdout)@ + enum_written(
            name@,
            label_texts(labels@),
            old(stdin).remaining(),
        ),
        final(stdin).remaining() == old(stdin).remaining().skip(
            enum_consumed(old(stdin).remaining(), labels@.len()) as int,
        ),
        match r {
            Ok(i) => i < labels@.len() && enum_rounds(old(stdin).remaining(), labels@.len()).0
                == Some(i as nat),
            Err(e) => enum_rounds(old(stdin).remaining(), labels@.len()).0 is None && e
                == SettingsError::EndOfInput,
        },
{
    stdout.append(name);
    stdout.append(": \n");
    write_options(labels, stdout);
    let ghost orig = stdin.remaining();
    let ghost count = labels@.len();
    let ghost base = stdout@;
    let ghost prompt = enum_prompt(name@);
    let ghost mut k: nat = 0;
    assert(label_texts(labels@).len() == count);
    assert(base =~= old(stdout)@ + enum_intro(name@, label_texts(labels@)));
    assert(orig.skip(0) =~= orig);
    assert(stdout@ =~= base + repeat(prompt + RETRY@, 0));
    loop
        invariant
            k <= orig.len(),
            count == labels@.len(),
            prompt == enum_prompt(name@),
            stdin.remaining() == orig.skip(k as int),
            enum_rounds(orig, count) == (
                enum_rounds(stdin.remaining(), count).0,
                enum_rounds(stdin.remaining(), count).1 + k,
            ),
            stdout@ == base + repeat(prompt + RETRY@, k),
            base == old(stdout)@ + enum_intro(name@, label_texts(labels@)),
            orig == old(stdin).remaining(),
            label_texts(labels@).len() == count,
        decreases orig.len() - k,
    {
        let ghost before = stdout@;
        let ghost cur = stdin.remaining();
        stdout.append("Enter ");
        stdout.append(name);
        stdout.append(": ");
        assert(stdout@ =~= before + prompt);
        match stdin.read_line() {
            None => {
                proof {
                    assert(orig.skip(k as int).len() == 0);
                    assert(stdout@ =~= old(stdout)@ + enum_written(
                        name@,
                        label_texts(labels@),
                        orig,
                    ));
                }
                return Err(SettingsError::EndOfInput);
            },
            Some(line) => {
                let t = trimmed(&line);
                let n = labels.len() as u64;
                let picked: Option<usize> = if n == 0 {
                    None
                } else {
                    match parse_unsigned(&t, n - 1) {
                        Some(v) => Some(v as usize),
                        None => None,
                    }
                };
                assert(t@ == trim(cur[0]));
                assert(match picked {
                    Some(i) => choice_of(cur[0], count) == Some(i as nat),
                    None => choice_of(cur[0], count) is None,
                });
                assert(cur.drop_first() =~= orig.skip((k + 1) as int));
                match picked {
                    Some(i) => {
                        proof {
                            assert(stdout@ =~= old(stdout)@ + enum_written(
                                name@,
                                label_texts(labels@),
                                orig,
                            ));
                        }
                        return Ok(i);
                    },
                    None => {
                        stdout.append(RETRY);
                        proof {
                            assert(stdout@ =~= base + repeat(prompt + RETRY@, k + 1));
                            k = k + 1;
                        }
                    },
                }
            },
        }
    }
}

/// Asks for a value under the heading `name`: writes the prompt and reads
/// one line. The value is the line without the blanks around it.
pub fn read_value(name: &str, stdin: &mut LineReader, stdout: &mut String) -> (value: String)
    ensures
        value@ == value_read(old(stdin).remaining()),
        final(stdin).remaining() == after_line(old(stdin).remaining()),
        final(stdout)@ == old(stdout)@ + value_prompt(name@),
{
    stdout.append("Enter your ");
    stdout.append(name);
    stdout.append(": ");
    assert(stdout@ =~= old(stdout)@ + value_prompt(name@));
    match stdin.read_line() {
        Some(line) => {
            let t = trimmed(&line);
            let value = string_of(&t, 0, t.len());
            assert(value@ =~= t@);
            value
        },
        None => String::new(),
    }
}

/// Asks for the secret: writes the prompt and reads one line. The secret
/// is the line as it is, without the carriage return that may end it.
pub fn read_secret(stdin: &mut LineReader, stdout: &mut String) -> (secret: String)
    ensures
        secret@ == secret_read(old(stdin).remaining()),
        final(stdin).remaining() == after_line(old(stdin).remaining()),
        final(stdout)@ == old(stdout)@ + PASSWORD_PROMPT@,
{
    stdout.append(PASSWORD_PROMPT);
    match stdin.read_line() {
        Some(line) => {
            let n = line.len();
            let mut end: usize = n;
            if end > 0 && line[end - 1] == '\n' {
                end = end - 1;
                if end > 0 && line[end - 1] == '\r' {
                    end = end - 1;
                }
            }
            let secret = string_of(&line, 0, end);
            proof {
                let open_line = line@.drop_last();
                if n > 0 && line@.last() == '\n' {
                    if open_line.len() > 0 && open_line.last() == '\r' {
                        assert(secret@ =~= open_line.drop_last());
                    } else {
                        assert(secret@ =~= open_line);
                    }
                } else {
                    assert(secret@ =~= line@);
                }
            }
            secret
        },
        None => String::new(),
    }
}

/// Sets the user's name from the next line. The result is the name as it
/// was before.
pub fn set_username(config: &mut UserConfig, stdin: &mut LineReader, stdout: &mut String) -> (r:
    Result<String, SettingsError>)
    ensures
        ended(*final(config), *final(stdin), *final(stdout), r) == ask_username(
            session(*old(config), *old(stdin), *old(stdout)),
        ),
        r matches Ok(previous) && previous@ == old(config).username@,
{
    let value = read_value("username", stdin, stdout);
    let previous = config.username.clone();
    config.username = value;
    let r = Ok(previous);
    proof {
        let a = ended(*config, *stdin, *stdout, r);
        let b = ask_username(session(*old(config), *old(stdin), *old(stdout)));
        assert(a.user == b.user);
        assert(a.input =~= b.input);
        assert(a.output =~= b.output);
    }
    r
}

/// Sets the secret from the next line. The result is the secret as it was
/// before.
pub fn set_password(config: &mut UserConfig, stdin: &mut LineReader, stdout: &mut String) -> (r:
    Result<String, SettingsError>)
    ensures
        ended(*final(config), *final(stdin), *final(stdout), r) == ask_password(
            session(*old(config), *old(stdin), *old(stdout)),
        ),
        r matches Ok(previous) && previous@ == old(config).password@,
{
    let value = read_secret(stdin, stdout);
    let previous = config.password.clone();
    config.password = value;
    let r = Ok(previous);
    proof {
        let a = ended(*config, *stdin, *stdout, r);
        let b = ask_password(session(*old(config), *old(stdin), *old(stdout)));
        assert(a.user == b.user);
        assert(a.input =~= b.input);
        assert(a.output =~= b.output);
    }
    r
}

/// Sets the tier to the one that the dialogue picks. The result is the
/// tier as it was before; at the end of the input nothing is set.
pub fn set_tier(config: &mut UserConfig, stdin: &mut LineReader, stdout: &mut String) -> (r:
    Result<PlanTier, SettingsError>)
    ensures
        ended(*final(config), *final(stdin), *final(stdout), r) == ask_tier(
            session(*old(config), *old(stdin), *old(stdout)),
        ),
        r matches Ok(previous) ==> previous == old(config).tier,
        r is Err ==> *final(config) == *old(config),
{
    let names = tier_names();
    let tiers = PlanTier::variants();
    let picked = ask_enum("Plan Tier", &names, stdin, stdout);
    let r = match picked {
        Ok(i) => {
            let previous = config.tier;
            config.tier = tiers[i];
            Ok(previous)
        },
        Err(e) => Err(e),
    };
    proof {
        let a = ended(*config, *stdin, *stdout, r);
        let b = ask_tier(session(*old(config), *old(stdin), *old(stdout)));
        assert(a.user == b.user);
        assert(a.input =~= b.input);
        assert(a.output =~= b.output);
    }
    r
}

/// Sets the protocol to the one that the dialogue picks. The result is the
/// protocol as it was before; at the end of the input nothing is set.
pub fn set_protocol(config: &mut UserConfig, stdin: &mut LineReader, stdout: &mut String) -> (r:
    Result<ConnectionProtocol, SettingsError>)
    ensures
        ended(*final(config), *final(stdin), *final(stdout), r) == ask_protocol(
            session(*old(config), *old(stdin), *old(stdout)),
        ),
        r matches Ok(previous) ==> previous == old(config).protocol,
        r is Err ==> *final(config) == *old(config),
{
    let names = protocol_names();
    let protocols = ConnectionProtocol::variants();
    let picked = ask_enum("Connection Protocol", &names, stdin, stdout);
    let r = match picked {
        Ok(i) => {
            let previous = config.protocol;
            config.protocol = protocols[i];
            Ok(previous)
        },
        Err(e) => Err(e),
    };
    proof {
        let a = ended(*config, *stdin, *stdout, r);
        let b = ask_protocol(session(*old(config), *old(stdin), *old(stdout)));
        assert(a.user == b.user);
        assert(a.input =~= b.input);
        assert(a.output =~= b.output);
    }
    r
}

/// The settings `user` with those of the four answers that were given.
pub open spec fn answered(
    user: UserConfigView,
    username: Option<String>,
    password: Option<String>,
    tier: Option<PlanTier>,
    protocol: Option<ConnectionProtocol>,
) -> UserConfigView {
    UserConfigView {
        username: match username {
            Some(u) => u@,
            None => user.username,
        },
        password: match password {
            Some(p) => p@,
            None => user.password,
        },
        tier: match tier {
            Some(t) => t,
            None => user.tier,
        },
        protocol: match protocol {
            Some(p) => p,
            None => user.protocol,
        },
        ..user
    }
}

/// Once the dialogues about the first `n` settings have failed, those
/// about the others change nothing.
pub proof fn lemma_error_sticks(order: Seq<Setting>, n: int, s: Session)
    requires
        0 <= n <= order.len(),
        ask_each(order.take(n), s).error is Some,
    ensures
        ask_each(order, s) == ask_each(order.take(n), s),
    decreases order.len() - n,
{
    if n < order.len() {
        assert(order.drop_last().take(n) =~= order.take(n));
        lemma_error_sticks(order.drop_last(), n, s);
    } else {
        assert(order.take(n) =~= order);
    }
}

/// Asks for one setting and sets it.
pub fn edit(setting: Setting, config: &mut UserConfig, stdin: &mut LineReader, stdout: &mut String) -> (r:
    Result<(), SettingsError>)
    ensures
        ended(*final(config), *final(stdin), *final(stdout), r) == ask(
            setting,
            session(*old(config), *old(stdin), *old(stdout)),
        ),
        r is Err ==> *final(config) == *old(config),
{
    match setting {
        Setting::Username => match set_username(config, stdin, stdout) {
            Ok(_) => Ok(()),
            Err(e) => Err(e),
        },
        Setting::Password => match set_password(config, stdin, stdout) {
            Ok(_) => Ok(()),
            Err(e) => Err(e),
        },
        Setting::Tier => match set_tier(config, stdin, stdout) {
            Ok(_) => Ok(()),
            Err(e) => Err(e),
        },
        Setting::Protocol => match set_protocol(config, stdin, stdout) {
            Ok(_) => Ok(()),
            Err(e) => Err(e),
        },
    }
}

/// Asks for every setting, in the order of the menu. The answers are taken
/// over together: when the input ends too early, the settings stay as they
/// were.
pub fn initialize(config: &mut UserConfig, stdin: &mut LineReader, stdout: &mut String) -> (r:
    Result<(), SettingsError>)
    ensures
        ended(*final(config), *final(stdin), *final(stdout), r) == initialize_session(
            session(*old(config), *old(stdin), *old(stdout)),
        ),
        r is Err ==> *final(config) == *old(config),
{
    let ghost s0 = session(*old(config), *old(stdin), *old(stdout));
    let order = Setting::order();
    let mut username: Option<String> = None;
    let mut password: Option<String> = None;
    let mut tier: Option<PlanTier> = None;
    let mut protocol: Option<ConnectionProtocol> = None;
    let mut i: usize = 0;
    assert(order@.take(0) =~= Seq::<Setting>::empty());
    while i < order.len()
        invariant
            i <= order.len(),
            order@ == Setting::menu(),
            *config == *old(config),
            s0 == session(*old(config), *old(stdin), *old(stdout)),
            ask_each(order@.take(i as int), s0) == (Session {
                user: answered(s0.user, username, password, tier, protocol),
                input: stdin.remaining(),
                output: stdout@,
                error: None,
            }),
        decreases order.len() - i,
    {
        let ghost before = ask_each(order@.take(i as int), s0);
        proof {
            assert(order@.take(i + 1).drop_last() =~= order@.take(i as int));
            assert(order@.take(i + 1).last() == order@[i as int]);
        }
        let failure: Option<SettingsError> = match order[i] {
            Setting::Username => {
                username = Some(read_value("username", stdin, stdout));
                None
            },
            Setting::Password => {
                password = Some(read_secret(stdin, stdout));
                None
            },
            Setting::Tier => {
                let names = tier_names();
                let tiers = PlanTier::variants();
                match ask_enum("Plan Tier", &names, stdin, stdout) {
                    Ok(k) => {
                        tier = Some(tiers[k]);
                        None
                    },
                    Err(e) => Some(e),
                }
            },
            Setting::Protocol => {
                let names = protocol_names();
                let protocols = ConnectionProtocol::variants();
                match ask_enum("Connection Protocol", &names, stdin, stdout) {
                    Ok(k) => {
                        protocol = Some(protocols[k]);
                        None
                    },
                    Err(e) => Some(e),
                }
            },
        };
        let ghost after = ask(order@[i as int], before);
        proof {
            assert(after.input =~= stdin.remaining());
            assert(after.output =~= stdout@);
            assert(after.error == failure);
            assert(after.user == answered(s0.user, username, password, tier, protocol));
            assert(ask_each(order@.take(i + 1), s0) == after);
        }
        match failure {
            Some(e) => {
                let r = Err(e);
                proof {
                    lemma_error_sticks(order@, i + 1, s0);
                    let a = ended(*config, *stdin, *stdout, r);
                    let b = initialize_session(s0);
                    assert(a.input =~= b.input);
                    assert(a.output =~= b.output);
                    assert(a.user == b.user);
                }
                return r;
            },
            None => {},
        }
        i += 1;
    }
    assert(order@.take(order.len() as int) =~= order@);
    match username {
        Some(u) => {
            config.username = u;
        },
        None => {},
    }
    match password {
        Some(p) => {
            config.password = p;
        },
        None => {},
    }
    match tier {
        Some(t) => {
            config.tier = t;
        },
        None => {},
    }
    match protocol {
        Some(p) => {
            config.protocol = p;
        },
        None => {},
    }
    let r = Ok(());
    proof {
        let a = ended(*config, *stdin, *stdout, r);
        let b = initialize_session(s0);
        assert(a.input =~= b.input);
        assert(a.output =~= b.output);
        assert(a.user == b.user);
    }
    r
}

/// Asks for every setting, as `initialize` does.
pub fn ask_for_settings(config: &mut UserConfig, stdin: &mut LineReader, stdout: &mut String) -> (r:
    Result<(), SettingsError>)
    ensures
        ended(*final(config), *final(stdin), *final(stdout), r) == initialize_session(
            session(*old(config), *old(stdin), *old(stdout)),
        ),
        r is Err ==> *final(config) == *old(config),
{
    initialize(config, stdin, stdout)
}

/// Asks which setting to edit, then for that setting. A number of at most
/// 255 that names no setting leaves the settings as they were, without an
/// error; a line that spells no such number ends the dialogue with one.
pub fn configure(config: &mut UserConfig, stdin: &mut LineReader, stdout: &mut String) -> (r:
    Result<(), SettingsError>)
    ensures
        ended(*final(config), *final(stdin), *final(stdout), r) == configure_session(
            session(*old(config), *old(stdin), *old(stdout)),
        ),
        r is Err ==> *final(config) == *old(config),
{
    let ghost s0 = session(*old(config), *old(stdin), *old(stdout));
    stdout.append(MENU);
    let picked: Option<u64> = match stdin.read_line() {
        Some(line) => {
            let t = trimmed(&line);
            parse_unsigned(&t, 255)
        },
        None => None,
    };
    let ghost asked = Session { input: after_line(s0.input), output: s0.output + MENU@, ..s0 };
    proof {
        assert(asked.input =~= stdin.remaining());
        assert(asked.output =~= stdout@);
        assert(asked == session(*config, *stdin, *stdout));
    }
    let r = match picked {
        Some(n) => match Setting::from_index(n as usize) {
            Some(setting) => edit(setting, config, stdin, stdout),
            None => Ok(()),
        },
        None => Err(SettingsError::GarbageValue),
    };
    proof {
        let a = ended(*config, *stdin, *stdout, r);
        let b = configure_session(s0);
        assert(a.input =~= b.input);
        assert(a.output =~= b.output);
        assert(a.user == b.user);
    }
    r
}

/// The user's settings under edit, with the source of lines that the
/// answers come from and the text that was written so far.
pub struct Settings {
    pub settings: UserConfig,
    pub stdout: String,
    pub stdin: LineReader,
}

impl Settings {
    /// An editor of `settings` that writes to the end of `stdout` and reads
    /// from `stdin`.
    pub fn new(settings: UserConfig, stdout: String, stdin: LineReader) -> (s: Settings)
        ensures
            s.settings == settings,
            s.stdout == stdout,
            s.stdin == stdin,
    {
        Settings { settings, stdout, stdin }
    }

    /// The state of the dialogue.
    pub open spec fn session(&self) -> Session {
        session(self.settings, self.stdin, self.stdout)
    }

    /// Sets the user's name from the next line; the result is the old name.
    pub fn set_username(&mut self) -> (r: Result<String, SettingsError>)
        ensures
            ended(final(self).settings, final(self).stdin, final(self).stdout, r) == ask_username(
                old(self).session(),
            ),
            r matches Ok(previous) && previous@ == old(self).settings.username@,
    {
        set_username(&mut self.settings, &mut self.stdin, &mut self.stdout)
    }

    /// Sets the secret from the next line; the result is the old secret.
    pub fn set_password(&mut self) -> (r: Result<String, SettingsError>)
        ensures
            ended(final(self).settings, final(self).stdin, final(self).stdout, r) == ask_password(
                old(self).session(),
            ),
            r matches Ok(previous) && previous@ == old(self).settings.password@,
    {
        set_password(&mut self.settings, &mut self.stdin, &mut self.stdout)
    }

    /// Sets the tier to the one that the dialogue picks; the result is the
    /// old tier.
    pub fn set_tier(&mut self) -> (r: Result<PlanTier, SettingsError>)
        ensures
            ended(final(self).settings, final(self).stdin, final(self).stdout, r) == ask_tier(
                old(self).session(),
            ),
            r matches Ok(previous) ==> previous == old(self).settings.tier,
            r is Err ==> final(self).settings == old(self).settings,
    {
        set_tier(&mut self.settings, &mut self.stdin, &mut self.stdout)
    }

    /// Sets the protocol to the one that the dialogue picks; the result is
    /// the old protocol.
    pub fn set_protocol(&mut self) -> (r: Result<ConnectionProtocol, SettingsError>)
        ensures
            ended(final(self).settings, final(self).stdin, final(self).stdout, r) == ask_protocol(
                old(self).session(),
            ),
            r matches Ok(previous) ==> previous == old(self).settings.protocol,
            r is Err ==> final(self).settings == old(self).settings,
    {
        set_protocol(&mut self.settings, &mut self.stdin, &mut self.stdout)
    }

    /// The settings as they are now.
    pub fn inner(self) -> (settings: UserConfig)
        ensures
            settings == self.settings,
    {
        self.settings
    }

    /// The settings as they are now.
    pub fn into_inner(self) -> (settings: UserConfig)
        ensures
            settings == self.settings,
    {
        self.settings
    }
}

/// The dialogue about one setting changes no other setting, and none at
/// all where it fails or where the number names no setting.
pub proof fn lemma_configure_sets_one(s: Session)
    requires
        s.error is None,
    ensures
        ({
            let e = configure_session(s);
            let changed = (if e.user.username != s.user.username {
                1int
            } else {
                0int
            }) + (if e.user.password != s.user.password {
                1int
            } else {
                0int
            }) + (if e.user.tier != s.user.tier {
                1int
            } else {
                0int
            }) + (if e.user.protocol != s.user.protocol {
                1int
            } else {
                0int
            });
            &&& changed <= 1
            &&& e.error is Some ==> e.user == s.user
            &&& e.user == UserConfigView {
                username: e.user.username,
                password: e.user.password,
                tier: e.user.tier,
                protocol: e.user.protocol,
                ..s.user
            }
            &&& e.output.subrange(0, s.output.len() as int) == s.output
        }),
{
    let e = configure_session(s);
    assert(e.output.subrange(0, s.output.len() as int) =~= s.output);
}

/// The dialogue about every setting asks for the name, the secret, the
/// tier and the protocol, in this order. It fails only where the input ends
/// before a tier and a protocol were picked, and then it changes nothing.
pub proof fn lemma_initialize_all_or_nothing(s: Session)
    requires
        s.error is None,
    ensures
        ask_each(Setting::menu(), s) == ask_protocol(ask_tier(ask_password(ask_username(s)))),
        ({
            let e = initialize_session(s);
            &&& e.error is Some ==> e.user == s.user && e.error == Some(SettingsError::EndOfInput)
            &&& e.user == UserConfigView {
                username: e.user.username,
                password: e.user.password,
                tier: e.user.tier,
                protocol: e.user.protocol,
                ..s.user
            }
            &&& e.error is None ==> e.user.username == value_read(s.input) && e.user.password
                == secret_read(after_line(s.input))
        }),
{
    let m = Setting::menu();
    reveal_with_fuel(ask_each, 5);
    assert(m.drop_last() =~= seq![Setting::Username, Setting::Password, Setting::Tier]);
    assert(m.drop_last().drop_last() =~= seq![Setting::Username, Setting::Password]);
    assert(m.drop_last().drop_last().drop_last() =~= seq![Setting::Username]);
    assert(m.drop_last().drop_last().drop_last().drop_last() =~= Seq::<Setting>::empty());
}

/// One line of the menu: the setting's number and its name.
pub open spec fn menu_line(n: nat) -> Seq<char> {
    decimal(n) + ") "@ + Setting::menu()[n as int].label() + seq!['\n']
}

/// The menu lists the settings in their order, each under the number that
/// names it.
pub proof fn lemma_menu_lists_settings()
    ensures
        MENU@ == "Options: \n"@ + menu_line(0) + menu_line(1) + menu_line(2) + menu_line(3)
            + "Enter Option: \n"@,
{
    reveal_strlit("Options: \n0) Username\n1) Password\n2) Tier\n3) Protocol\nEnter Option: \n");
    reveal_strlit("Options: \n");
    reveal_strlit(") ");
    reveal_strlit("Username");
    reveal_strlit("Password");
    reveal_strlit("Tier");
    reveal_strlit("Protocol");
    reveal_strlit("Enter Option: \n");
    reveal_with_fuel(decimal, 2);
    assert(decimal(0) =~= seq!['0']);
    assert(decimal(1) =~= seq!['1']);
    assert(decimal(2) =~= seq!['2']);
    assert(decimal(3) =~= seq!['3']);
    assert(MENU@ =~= "Options: \n"@ + menu_line(0) + menu_line(1) + menu_line(2) + menu_line(3)
        + "Enter Option: \n"@);
}

} // verus!
