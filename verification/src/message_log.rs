use vstd::prelude::*;
use crate::text::{decimal, decimal_text};

verus! {

/// The kind of a message, which decides how it is shown.
#[derive(Debug, Copy, Clone, PartialEq, Eq, Structural)]
pub enum MessageType {
    /// conversations, flavor text
    FLAVOR,
    /// game info ie Fishing attempts remaining
    INFO,
    /// only shown if debug is enabled
    DEBUG,
}

/// One entry of the message log: its kind, its text and how many times in a row it was logged.
pub struct Message {
    pub kind: MessageType,
    pub contents: String,
    pub repeated: usize,
}

/// A message as a value: kind, text and repeat count.
pub type MessageView = (MessageType, Seq<char>, nat);

impl View for Message {
    type V = MessageView;

    open spec fn view(&self) -> MessageView {
        (self.kind, self.contents@, self.repeated as nat)
    }
}

/// The palette color name that a message of this kind is printed with.
pub open spec fn color_name(kind: MessageType) -> Seq<char> {
    match kind {
        MessageType::INFO => seq!['l', 'i', 'g', 'h', 't', 'g', 'r', 'a', 'y'],
        MessageType::DEBUG => seq!['o', 'r', 'a', 'n', 'g', 'e'],
        MessageType::FLAVOR => seq!['w', 'h', 'i', 't', 'e'],
    }
}

/// The colored text of a message: `#[color]contents#[]`, followed by ` xN` when it was logged
/// `N > 1` times in a row.
pub open spec fn colored_text(m: MessageView) -> Seq<char> {
    let suffix = if m.2 > 1 { seq![' ', 'x'] + decimal(m.2) } else { Seq::<char>::empty() };
    seq!['#', '['] + color_name(m.0) + seq![']'] + m.1 + seq!['#', '[', ']'] + suffix
}

impl Message {
    pub fn new(contents: String, message_type: MessageType) -> (m: Self)
        ensures
            m@ == (message_type, contents@, 1nat),
    {
        Self { kind: message_type, contents, repeated: 1 }
    }

    /// How many times in a row this message was logged.
    pub fn repeated(&self) -> (n: usize)
        ensures
            n == self@.2,
    {
        self.repeated
    }

    /// Returns a colored output of the message based on type and amt
    pub fn colored(&self) -> (s: String)
        ensures
            s@ == colored_text(self@),
    {
        proof {
            reveal_strlit("lightgray");
            reveal_strlit("orange");
            reveal_strlit("white");
            reveal_strlit("#[");
            reveal_strlit("]");
            reveal_strlit("#[]");
            reveal_strlit(" x");
        }
        let color = match self.kind {
            MessageType::INFO => "lightgray",
            MessageType::DEBUG => "orange",
            MessageType::FLAVOR => "white",
        };
        let mut s = String::from_str("#[");
        s.append(color);
        s.append("]");
        s.append(self.contents.as_str());
        s.append("#[]");
        if self.repeated > 1 {
            s.append(" x");
            let amt = decimal_text(self.repeated);
            s.append(amt.as_str());
        }
        assert(s@ =~= colored_text(self@));
        s
    }

    /// The plain text of the message.
    pub fn to_string(&self) -> (s: String)
        ensures
            s@ == self@.1,
    {
        self.contents.clone()
    }
}

/// Resource used for logging to the message console on the screen to the player
pub struct MessageLog {
    pub messages: Vec<Message>,
}

impl View for MessageLog {
    type V = Seq<MessageView>;

    open spec fn view(&self) -> Seq<MessageView> {
        self.messages@.map_values(|m: Message| m@)
    }
}

/// The log after `contents` of kind `kind` is added: when the newest message has the same text
/// and kind its count goes up by one, otherwise a new message with count one is appended.
pub open spec fn logged(msgs: Seq<MessageView>, contents: Seq<char>, kind: MessageType) -> Seq<MessageView> {
    if msgs.len() > 0 && msgs.last().1 == contents && msgs.last().0 == kind {
        msgs.update(msgs.len() - 1, (kind, contents, msgs.last().2 + 1))
    } else {
        msgs.push((kind, contents, 1nat))
    }
}

/// Whether `contents` of kind `kind` can be added without the repeat count overflowing.
pub open spec fn can_log(msgs: Seq<MessageView>, contents: Seq<char>, kind: MessageType) -> bool {
    msgs.len() > 0 && msgs.last().1 == contents && msgs.last().0 == kind ==> msgs.last().2 < usize::MAX
}

/// The welcome message that a new log starts with.
pub open spec fn welcome_text() -> Seq<char> {
    "Welcome to the world of rust_rpg!"@
}

impl MessageLog {
    pub fn new() -> (log: Self)
        ensures
            log@ == seq![(MessageType::INFO, welcome_text(), 1nat)],
    {
        let m = Message::new(String::from_str("Welcome to the world of rust_rpg!"), MessageType::INFO);
        let mut messages = Vec::new();
        messages.push(m);
        let log = Self { messages };
        assert(log@ =~= seq![(MessageType::INFO, welcome_text(), 1nat)]);
        log
    }

    /// Adds info to the log
    pub fn log(&mut self, contents: &str)
        requires
            can_log(old(self)@, contents@, MessageType::INFO),
        ensures
            final(self)@ == logged(old(self)@, contents@, MessageType::INFO),
    {
        self.add_to_log(String::from_str(contents), MessageType::INFO);
    }

    /// Adds flavor to the log
    pub fn enhance(&mut self, contents: &str)
        requires
            can_log(old(self)@, contents@, MessageType::FLAVOR),
        ensures
            final(self)@ == logged(old(self)@, contents@, MessageType::FLAVOR),
    {
        self.add_to_log(String::from_str(contents), MessageType::FLAVOR);
    }

    /// Adds debug info to the log
    pub fn debug(&mut self, contents: &str)
        requires
            can_log(old(self)@, contents@, MessageType::DEBUG),
        ensures
            final(self)@ == logged(old(self)@, contents@, MessageType::DEBUG),
    {
        self.add_to_log(String::from_str(contents), MessageType::DEBUG);
    }

    /// Returns the nth most recent messages in the log, newest first
    pub fn nth_recent(&self, n: usize) -> (r: Vec<&Message>)
        ensures
            r@.len() == if n < self.messages@.len() { n as int } else { self.messages@.len() as int },
            forall|i: int| 0 <= i < r@.len() ==> *r@[i] == self.messages@[self.messages@.len() - 1 - i],
    {
        let len = self.messages.len();
        let mut r: Vec<&Message> = Vec::new();
        let mut i: usize = 0;
        while i < n && i < len
            invariant
                len == self.messages@.len(),
                i <= len,
                i <= n,
                r@.len() == i,
                forall|k: int| 0 <= k < i ==> *r@[k] == self.messages@[len - 1 - k],
            decreases len - i,
        {
            r.push(&self.messages[len - 1 - i]);
            i = i + 1;
        }
        r
    }

    /// Adds a new message to the log. If the message is the same as it's predecessor then it will
    /// increment the `repeated` variable
    pub fn add_to_log(&mut self, contents: String, msg_type: MessageType)
        requires
            can_log(old(self)@, contents@, msg_type),
        ensures
            final(self)@ == logged(old(self)@, contents@, msg_type),
    {
        let len = self.messages.len();
        if len > 0 && self.messages[len - 1].contents == contents && self.messages[len - 1].kind == msg_type {
            let mut last = self.messages.pop().unwrap();
            last.repeated = last.repeated + 1;
            self.messages.push(last);
            assert(self@ =~= logged(old(self)@, contents@, msg_type));
        } else {
            self.messages.push(Message::new(contents, msg_type));
            assert(self@ =~= logged(old(self)@, contents@, msg_type));
        }
    }
}

impl Default for MessageLog {
    fn default() -> (log: Self)
        ensures
            log@ == seq![(MessageType::INFO, welcome_text(), 1nat)],
    {
        Self::new()
    }
}

/// No two neighbouring messages of the log have both the same text and the same kind.
pub open spec fn no_adjacent_repeats(msgs: Seq<MessageView>) -> bool {
    forall|i: int| 0 <= i < msgs.len() - 1 ==>
        !(#[trigger] msgs[i].1 == msgs[i + 1].1 && msgs[i].0 == msgs[i + 1].0)
}

/// How many times messages were logged in all: the sum of the repeat counts.
pub open spec fn total_logged(msgs: Seq<MessageView>) -> nat
    decreases msgs.len(),
{
    if msgs.len() == 0 {
        0
    } else {
        total_logged(msgs.drop_last()) + msgs.last().2
    }
}

/// A log never holds the same message twice in a row: a repeat is counted on the newest entry
/// instead. This holds of a new log and every addition keeps it.
pub proof fn lemma_logging_keeps_no_adjacent_repeats(msgs: Seq<MessageView>, contents: Seq<char>, kind: MessageType)
    requires
        no_adjacent_repeats(msgs),
    ensures
        no_adjacent_repeats(logged(msgs, contents, kind)),
        no_adjacent_repeats(seq![(MessageType::INFO, welcome_text(), 1nat)]),
{
    let r = logged(msgs, contents, kind);
    if msgs.len() > 0 && msgs.last().1 == contents && msgs.last().0 == kind {
        assert forall|i: int| 0 <= i < r.len() - 1 implies
            !(#[trigger] r[i].1 == r[i + 1].1 && r[i].0 == r[i + 1].0) by {
            assert(r[i] == msgs[i]);
            assert(r[i + 1].1 == msgs[i + 1].1 && r[i + 1].0 == msgs[i + 1].0);
        }
    } else {
        assert forall|i: int| 0 <= i < r.len() - 1 implies
            !(#[trigger] r[i].1 == r[i + 1].1 && r[i].0 == r[i + 1].0) by {
            assert(r[i] == msgs[i]);
            if i + 1 < msgs.len() {
                assert(r[i + 1] == msgs[i + 1]);
            }
        }
    }
}

/// Every addition to the log counts exactly once: the sum of the repeat counts grows by one.
pub proof fn lemma_logging_counts_once(msgs: Seq<MessageView>, contents: Seq<char>, kind: MessageType)
    ensures
        total_logged(logged(msgs, contents, kind)) == total_logged(msgs) + 1,
{
    let r = logged(msgs, contents, kind);
    if msgs.len() > 0 && msgs.last().1 == contents && msgs.last().0 == kind {
        assert(r.drop_last() =~= msgs.drop_last());
    } else {
        assert(r.drop_last() =~= msgs);
    }
}


/// A line to be added to the message log, with its kind.
pub struct LogLine {
    pub kind: MessageType,
    pub text: String,
}

impl View for LogLine {
    type V = (MessageType, Seq<char>);

    open spec fn view(&self) -> (MessageType, Seq<char>) {
        (self.kind, self.text@)
    }
}

impl LogLine {
    pub fn new(kind: MessageType, text: String) -> (l: Self)
        ensures
            l@ == (kind, text@),
    {
        Self { kind, text }
    }
}

/// The lines of a list as values.
pub open spec fn lines_view(v: Seq<LogLine>) -> Seq<(MessageType, Seq<char>)> {
    v.map_values(|l: LogLine| l@)
}

} // verus!
