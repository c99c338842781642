//! The messages that travel between client and server.

use crate::text::append_signed;
use crate::text::append_unsigned;
use crate::text::decimal;
use crate::text::signed_decimal;
use vstd::prelude::*;

verus! {

/// The commands that a server understands.
#[derive(Copy, Clone, Debug, PartialEq, Eq, Structural)]
pub enum CommandId {
    Hello,
    Stop,
    SendEvent,
    Div,
}

/// A request of the client.
#[derive(Copy, Clone, Debug)]
pub struct MsgCommand {
    pub id: u32,
    pub args: [i32; 3],
}

/// The server's answer to one command.
#[derive(Copy, Clone, Debug)]
pub struct MsgResponse {
    pub id: u32,
    pub result: i32,
    pub data: i32,
}

/// One of a run of events that a client asked for.
#[derive(Copy, Clone, Debug)]
pub struct MsgEvent {
    pub id: u32,
    pub nr: u32,
}

impl CommandId {
    /// The number that stands for the command in [`MsgCommand::id`].
    pub open spec fn number(self) -> u32 {
        match self {
            CommandId::Hello => 1,
            CommandId::Stop => 2,
            CommandId::SendEvent => 3,
            CommandId::Div => 4,
        }
    }

    pub fn code(self) -> (r: u32)
        ensures
            r == self.number(),
    {
        match self {
            CommandId::Hello => 1,
            CommandId::Stop => 2,
            CommandId::SendEvent => 3,
            CommandId::Div => 4,
        }
    }

    /// The command that `code` stands for, if it stands for one.
    pub fn from_code(code: u32) -> (r: Option<CommandId>)
        ensures
            r matches Some(c) ==> c.number() == code,
            r is None ==> forall|c: CommandId| #[trigger] c.number() != code,
    {
        match code {
            1 => Some(CommandId::Hello),
            2 => Some(CommandId::Stop),
            3 => Some(CommandId::SendEvent),
            4 => Some(CommandId::Div),
            _ => None,
        }
    }
}

/// No two commands share a number.
pub proof fn lemma_numbers_differ(a: CommandId, b: CommandId)
    ensures
        a.number() == b.number() <==> a == b,
{
}

/// Whether `a / b` does not fit: the one quotient of two `i32`s that is too large.
pub open spec fn quotient_overflows(a: i32, b: i32) -> bool {
    a == i32::MIN && b == -1
}

impl MsgCommand {
    /// Whether the message asks for `c`.
    pub open spec fn asks(self, c: CommandId) -> bool {
        self.id == c.number()
    }

    /// Whether a server can carry the command out: it knows the number, and a
    /// quotient that is asked for can be represented.
    pub open spec fn executable(self) -> bool {
        &&& exists|c: CommandId| #[trigger] self.asks(c)
        &&& self.asks(CommandId::Div) ==> !quotient_overflows(self.args@[0], self.args@[1])
    }

    pub fn is_executable(&self) -> (r: bool)
        ensures
            r == self.executable(),
    {
        match CommandId::from_code(self.id) {
            Some(c) => {
                assert(self.asks(c));
                if let CommandId::Div = c {
                    self.args[0] != i32::MIN || self.args[1] != -1
                } else {
                    true
                }
            },
            None => {
                assert(forall|c: CommandId| #[trigger] self.asks(c) ==> c.number() == self.id);
                false
            },
        }
    }

    /// The line of one argument.
    pub open spec fn argument_line(index: nat, argument: i32) -> Seq<char> {
        "\targ["@ + decimal(index) + "]: "@ + signed_decimal(argument as int) + "\n"@
    }

    /// The lines of the first `n` arguments.
    pub open spec fn argument_lines(self, n: nat) -> Seq<char>
        decreases n,
    {
        if n == 0 {
            seq![]
        } else {
            let last = (n - 1) as nat;
            self.argument_lines(last) + Self::argument_line(last, self.args@[last as int])
        }
    }

    /// How the command is shown: its id, then each argument on a line of its own.
    pub open spec fn text(self) -> Seq<char> {
        "id: "@ + decimal(self.id as nat) + "\n"@ + self.argument_lines(self.args@.len())
    }

    pub fn to_text(&self) -> (r: String)
        ensures
            r@ == self.text(),
    {
        let mut s = String::new();
        s.append("id: ");
        append_unsigned(&mut s, self.id);
        s.append("\n");
        let ghost head = "id: "@ + decimal(self.id as nat) + "\n"@;
        assert(s@ =~= head + self.argument_lines(0));
        let mut index: usize = 0;
        while index < self.args.len()
            invariant
                index <= self.args@.len(),
                s@ == head + self.argument_lines(index as nat),
            decreases self.args@.len() - index,
        {
            s.append("\targ[");
            append_unsigned(&mut s, index as u32);
            s.append("]: ");
            append_signed(&mut s, self.args[index]);
            s.append("\n");
            assert(s@ =~= head + self.argument_lines((index + 1) as nat));
            index = index + 1;
        }
        s
    }
}

impl MsgResponse {
    pub open spec fn text(self) -> Seq<char> {
        "id: "@ + decimal(self.id as nat) + "\n\tresult: "@ + signed_decimal(self.result as int)
            + "\n\tdata: "@ + signed_decimal(self.data as int) + "\n"@
    }

    pub fn to_text(&self) -> (r: String)
        ensures
            r@ == self.text(),
    {
        let mut s = String::new();
        s.append("id: ");
        append_unsigned(&mut s, self.id);
        s.append("\n\tresult: ");
        append_signed(&mut s, self.result);
        s.append("\n\tdata: ");
        append_signed(&mut s, self.data);
        s.append("\n");
        assert(s@ =~= self.text());
        s
    }
}

impl MsgEvent {
    pub open spec fn text(self) -> Seq<char> {
        "id: "@ + decimal(self.id as nat) + "\n\tnr: "@ + decimal(self.nr as nat) + "\n"@
    }

    pub fn to_text(&self) -> (r: String)
        ensures
            r@ == self.text(),
    {
        let mut s = String::new();
        s.append("id: ");
        append_unsigned(&mut s, self.id);
        s.append("\n\tnr: ");
        append_unsigned(&mut s, self.nr);
        s.append("\n");
        assert(s@ =~= self.text());
        s
    }
}

} // verus!
