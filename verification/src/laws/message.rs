//! How numbers are read and messages are shown.

use crate::message::CommandId;
use crate::message::MsgCommand;
use crate::message::MsgEvent;
use crate::message::MsgResponse;
use crate::text::decimal;
use crate::text::signed_decimal;
use crate::wrap::signed;
use crate::wrap::unsigned;
use crate::wrap::TWO_POW_32;
use vstd::prelude::*;

verus! {

/// The signed reading of 32 bits differs from the unsigned one by a multiple of
/// 2^32, and lies in the range of an `i32`.
pub proof fn law_signed(x: u32)
    ensures
        -0x8000_0000 <= signed(x) < 0x8000_0000,
        signed(x) == x || signed(x) == x - 0x1_0000_0000,
{
}

/// The unsigned reading of 32 bits differs from the signed one by a multiple of
/// 2^32, and lies in the range of a `u32`.
pub proof fn law_unsigned(x: i32)
    ensures
        0 <= unsigned(x) < 0x1_0000_0000,
        unsigned(x) == x || unsigned(x) == x + 0x1_0000_0000,
{
}

/// The modulus of the numbers on the bus.
pub proof fn law_two_pow_32()
    ensures
        TWO_POW_32 == 0x1_0000_0000,
{
}

/// Read as a number to the base of ten, the decimal of `n` is `n`; it consists of
/// digits, at least one of them, and starts with a zero only for zero itself.
pub proof fn law_decimal(n: nat, read: spec_fn(int, char) -> int)
    requires
        forall|v: int, c: char| #[trigger] read(v, c) == 10 * v + (c as int - '0' as int),
    ensures
        decimal(n).fold_left(0, read) == n,
        decimal(n).len() >= 1,
        forall|i: int| 0 <= i < decimal(n).len() ==> '0' <= #[trigger] decimal(n)[i] <= '9',
        n > 0 ==> decimal(n)[0] != '0',
        n == 0 ==> decimal(n).len() == 1,
    decreases n,
{
    reveal_strlit("0123456789");
    reveal_with_fuel(Seq::fold_left, 2);
    if n < 10 {
        let s = decimal(n);
        assert(s.drop_last() =~= seq![]);
        assert(s[0] as int - '0' as int == n);
    } else {
        law_decimal(n / 10, read);
        let s = decimal(n);
        let d = "0123456789"@[(n % 10) as int];
        assert(s.drop_last() =~= decimal(n / 10));
        assert(s.last() == d);
        assert(d as int - '0' as int == n % 10);
        assert(s[0] == decimal(n / 10)[0]);
        assert forall|i: int| 0 <= i < s.len() implies '0' <= #[trigger] s[i] <= '9' by {
            if i < s.len() - 1 {
                assert(s[i] == decimal(n / 10)[i]);
            }
        }
    }
}

/// A negative number is written as a minus sign and what it falls short of zero,
/// any other as it is.
pub proof fn law_signed_decimal(i: int)
    ensures
        i >= 0 ==> signed_decimal(i) == decimal(i as nat),
        i < 0 ==> signed_decimal(i).len() > 0 && signed_decimal(i)[0] == '-'
            && signed_decimal(i).skip(1) == decimal((-i) as nat),
{
    reveal_strlit("-");
    if i < 0 {
        assert(signed_decimal(i).skip(1) =~= decimal((-i) as nat));
    }
}

/// Different numbers are written differently.
pub proof fn law_signed_decimal_injective(i: int, j: int)
    requires
        signed_decimal(i) == signed_decimal(j),
    ensures
        i == j,
{
    let read = |v: int, c: char| 10 * v + (c as int - '0' as int);
    law_signed_decimal(i);
    law_signed_decimal(j);
    law_decimal(vstd::math::abs(i), read);
    law_decimal(vstd::math::abs(j), read);
    if i < 0 && j >= 0 {
        assert(decimal(j as nat)[0] >= '0');
    }
    if j < 0 && i >= 0 {
        assert(decimal(i as nat)[0] >= '0');
    }
}

/// No line break stands in a number.
proof fn lemma_no_break(i: int)
    ensures
        forall|k: int| 0 <= k < signed_decimal(i).len() ==> #[trigger] signed_decimal(i)[k] != '\n',
{
    let read = |v: int, c: char| 10 * v + (c as int - '0' as int);
    law_signed_decimal(i);
    law_decimal(vstd::math::abs(i), read);
    let s = signed_decimal(i);
    assert forall|k: int| 0 <= k < s.len() implies #[trigger] s[k] != '\n' by {
        if i < 0 && k > 0 {
            assert(s[k] == s.skip(1)[k - 1]);
        }
    }
}

/// Where two texts start with parts that hold no line break, and go on with one,
/// the parts are the same if the texts are.
proof fn lemma_same_first_line(a: Seq<char>, x: Seq<char>, b: Seq<char>, y: Seq<char>)
    requires
        a + x == b + y,
        x.len() > 0 && x[0] == '\n',
        y.len() > 0 && y[0] == '\n',
        forall|k: int| 0 <= k < a.len() ==> #[trigger] a[k] != '\n',
        forall|k: int| 0 <= k < b.len() ==> #[trigger] b[k] != '\n',
    ensures
        a == b,
        x == y,
{
    let t = a + x;
    assert(t[a.len() as int] == x[0]);
    assert((b + y)[b.len() as int] == y[0]);
    if a.len() < b.len() {
        assert((b + y)[a.len() as int] == b[a.len() as int]);
    }
    if b.len() < a.len() {
        assert(t[b.len() as int] == a[b.len() as int]);
    }
    assert forall|k: int| 0 <= k < a.len() implies a[k] == b[k] by {
        assert(t[k] == a[k]);
        assert((b + y)[k] == b[k]);
    }
    assert(a =~= b);
    assert(t.len() == a.len() + x.len() && (b + y).len() == b.len() + y.len());
    assert forall|k: int| 0 <= k < x.len() implies x[k] == y[k] by {
        assert(t[a.len() + k] == x[k]);
        assert((b + y)[b.len() + k] == y[k]);
    }
    assert(x =~= y);
}

proof fn lemma_drop_prefix(p: Seq<char>, x: Seq<char>, y: Seq<char>)
    requires
        p + x == p + y,
    ensures
        x == y,
{
    assert((p + x).len() == p.len() + x.len() && (p + y).len() == p.len() + y.len());
    assert forall|k: int| 0 <= k < x.len() implies x[k] == y[k] by {
        assert((p + x)[p.len() + k] == x[k]);
        assert((p + y)[p.len() + k] == y[k]);
    }
    assert(x =~= y);
}

/// The numbers of the commands.
pub proof fn law_command_numbers(c: CommandId)
    ensures
        c is Hello <==> c.number() == 1,
        c is Stop <==> c.number() == 2,
        c is SendEvent <==> c.number() == 3,
        c is Div <==> c.number() == 4,
{
}

/// What a command asks for goes by its id.
pub proof fn law_asks(cmd: MsgCommand)
    ensures
        cmd.asks(CommandId::Hello) <==> cmd.id == 1,
        cmd.asks(CommandId::Stop) <==> cmd.id == 2,
        cmd.asks(CommandId::SendEvent) <==> cmd.id == 3,
        cmd.asks(CommandId::Div) <==> cmd.id == 4,
{
}

/// A command can be carried out exactly if its id is known and it is not the one
/// division whose quotient is too large.
pub proof fn law_executable(cmd: MsgCommand)
    ensures
        cmd.executable() <==> 1 <= cmd.id <= 4 && !(cmd.id == 4 && cmd.args@[0] == -0x8000_0000
            && cmd.args@[1] == -1),
{
    law_asks(cmd);
    if 1 <= cmd.id <= 4 {
        assert(cmd.asks(CommandId::Hello) || cmd.asks(CommandId::Stop) || cmd.asks(
            CommandId::SendEvent,
        ) || cmd.asks(CommandId::Div));
    } else {
        assert forall|c: CommandId| !#[trigger] cmd.asks(c) by {
            law_command_numbers(c);
        }
    }
}

/// A command is shown as its id and, for each of the three indices in order, a
/// line with the index and the argument, whatever its value.
pub proof fn law_command_text(cmd: MsgCommand)
    ensures
        cmd.text() == "id: "@ + decimal(cmd.id as nat) + "\n\targ[0]: "@ + signed_decimal(
            cmd.args@[0] as int,
        ) + "\n\targ[1]: "@ + signed_decimal(cmd.args@[1] as int) + "\n\targ[2]: "@
            + signed_decimal(cmd.args@[2] as int) + "\n"@,
{
    reveal_strlit("0123456789");
    reveal_strlit("\n");
    reveal_strlit("\targ[");
    reveal_strlit("]: ");
    reveal_strlit("\n\targ[0]: ");
    reveal_strlit("\n\targ[1]: ");
    reveal_strlit("\n\targ[2]: ");
    reveal_with_fuel(MsgCommand::argument_lines, 4);
    assert("\n"@ + ("\targ["@ + decimal(0) + "]: "@) =~= "\n\targ[0]: "@);
    assert("\n"@ + ("\targ["@ + decimal(1) + "]: "@) =~= "\n\targ[1]: "@);
    assert("\n"@ + ("\targ["@ + decimal(2) + "]: "@) =~= "\n\targ[2]: "@);
    let tail = "\n"@;
    let a0 = signed_decimal(cmd.args@[0] as int);
    let a1 = signed_decimal(cmd.args@[1] as int);
    let a2 = signed_decimal(cmd.args@[2] as int);
    assert(cmd.text() =~= "id: "@ + decimal(cmd.id as nat) + (tail + ("\targ["@ + decimal(0) + "]: "@))
        + a0 + (tail + ("\targ["@ + decimal(1) + "]: "@)) + a1 + (tail + ("\targ["@ + decimal(2)
        + "]: "@)) + a2 + tail);
}

/// A response is shown as its id, its result and its data, each on a line.
pub proof fn law_response_text(m: MsgResponse)
    ensures
        m.text() == "id: "@ + decimal(m.id as nat) + "\n\tresult: "@ + signed_decimal(
            m.result as int,
        ) + "\n\tdata: "@ + signed_decimal(m.data as int) + "\n"@,
{
}

/// An event is shown as its id and its number, each on a line.
pub proof fn law_event_text(m: MsgEvent)
    ensures
        m.text() == "id: "@ + decimal(m.id as nat) + "\n\tnr: "@ + decimal(m.nr as nat) + "\n"@,
{
}

/// Where two texts start with the same label and a number, and go on with a line
/// break, the numbers are the same if the texts are.
proof fn lemma_same_field(label: Seq<char>, i: int, x: Seq<char>, j: int, y: Seq<char>)
    requires
        label + (signed_decimal(i) + x) == label + (signed_decimal(j) + y),
        x.len() > 0 && x[0] == '\n',
        y.len() > 0 && y[0] == '\n',
    ensures
        i == j,
        x == y,
{
    lemma_drop_prefix(label, signed_decimal(i) + x, signed_decimal(j) + y);
    lemma_no_break(i);
    lemma_no_break(j);
    lemma_same_first_line(signed_decimal(i), x, signed_decimal(j), y);
    law_signed_decimal_injective(i, j);
}

/// A text of two numbered fields, taken apart.
spec fn two_fields(l0: Seq<char>, i: int, l1: Seq<char>, j: int, end: Seq<char>) -> Seq<char> {
    l0 + (signed_decimal(i) + (l1 + (signed_decimal(j) + end)))
}

proof fn lemma_two_fields(
    l0: Seq<char>,
    l1: Seq<char>,
    i: int,
    j: int,
    x: Seq<char>,
    p: int,
    q: int,
    y: Seq<char>,
)
    requires
        two_fields(l0, i, l1, j, x) == two_fields(l0, p, l1, q, y),
        l1.len() > 0 && l1[0] == '\n',
        x.len() > 0 && x[0] == '\n',
        y.len() > 0 && y[0] == '\n',
    ensures
        i == p,
        j == q,
        x == y,
{
    let (u, v) = (l1 + (signed_decimal(j) + x), l1 + (signed_decimal(q) + y));
    lemma_same_field(l0, i, u, p, v);
    lemma_same_field(l1, j, x, q, y);
}

/// What is shown of a response tells all of it.
pub proof fn law_response_text_injective(a: MsgResponse, b: MsgResponse)
    requires
        a.text() == b.text(),
    ensures
        a.id == b.id,
        a.result == b.result,
        a.data == b.data,
{
    reveal_strlit("\n");
    reveal_strlit("\n\tresult: ");
    reveal_strlit("\n\tdata: ");
    let (l0, l1, l2) = ("id: "@, "\n\tresult: "@, "\n\tdata: "@);
    let x = l2 + (signed_decimal(a.data as int) + "\n"@);
    let y = l2 + (signed_decimal(b.data as int) + "\n"@);
    law_response_text(a);
    law_response_text(b);
    assert(a.text() =~= two_fields(l0, a.id as int, l1, a.result as int, x));
    assert(b.text() =~= two_fields(l0, b.id as int, l1, b.result as int, y));
    lemma_two_fields(l0, l1, a.id as int, a.result as int, x, b.id as int, b.result as int, y);
    lemma_same_field(l2, a.data as int, "\n"@, b.data as int, "\n"@);
}

/// What is shown of an event tells all of it.
pub proof fn law_event_text_injective(a: MsgEvent, b: MsgEvent)
    requires
        a.text() == b.text(),
    ensures
        a.id == b.id,
        a.nr == b.nr,
{
    reveal_strlit("\n");
    reveal_strlit("\n\tnr: ");
    let (l0, l1, end) = ("id: "@, "\n\tnr: "@, "\n"@);
    law_event_text(a);
    law_event_text(b);
    assert(a.text() =~= two_fields(l0, a.id as int, l1, a.nr as int, end));
    assert(b.text() =~= two_fields(l0, b.id as int, l1, b.nr as int, end));
    lemma_two_fields(l0, l1, a.id as int, a.nr as int, end, b.id as int, b.nr as int, end);
}

proof fn lemma_reassociate(
    a: Seq<char>,
    b: Seq<char>,
    c: Seq<char>,
    d: Seq<char>,
    e: Seq<char>,
    f: Seq<char>,
    g: Seq<char>,
    h: Seq<char>,
    i: Seq<char>,
)
    ensures
        a + b + c + d + e + f + g + h + i == a + (b + (c + (d + (e + (f + (g + (h + i))))))),
{
    assert(e + f + g + h + i =~= e + (f + (g + (h + i))));
    let tail = e + f + g + h + i;
    let head = a + b + c + d;
    assert(head + e + f + g + h + i =~= head + tail);
    assert(head + tail =~= a + (b + (c + (d + tail))));
}

proof fn lemma_command_text_apart(cmd: MsgCommand)
    ensures
        cmd.text() == two_fields(
            "id: "@,
            cmd.id as int,
            "\n\targ[0]: "@,
            cmd.args@[0] as int,
            two_fields(
                "\n\targ[1]: "@,
                cmd.args@[1] as int,
                "\n\targ[2]: "@,
                cmd.args@[2] as int,
                "\n"@,
            ),
        ),
{
    law_command_text(cmd);
    lemma_reassociate(
        "id: "@,
        signed_decimal(cmd.id as int),
        "\n\targ[0]: "@,
        signed_decimal(cmd.args@[0] as int),
        "\n\targ[1]: "@,
        signed_decimal(cmd.args@[1] as int),
        "\n\targ[2]: "@,
        signed_decimal(cmd.args@[2] as int),
        "\n"@,
    );
}

/// What is shown of a command tells all of it.
pub proof fn law_command_text_injective(a: MsgCommand, b: MsgCommand)
    requires
        a.text() == b.text(),
    ensures
        a.id == b.id,
        a.args@ == b.args@,
{
    reveal_strlit("\n");
    reveal_strlit("\n\targ[0]: ");
    reveal_strlit("\n\targ[1]: ");
    reveal_strlit("\n\targ[2]: ");
    let (l0, l1, l2, l3) = ("id: "@, "\n\targ[0]: "@, "\n\targ[1]: "@, "\n\targ[2]: "@);
    let x = two_fields(l2, a.args@[1] as int, l3, a.args@[2] as int, "\n"@);
    let y = two_fields(l2, b.args@[1] as int, l3, b.args@[2] as int, "\n"@);
    lemma_command_text_apart(a);
    lemma_command_text_apart(b);
    assert(x[0] == '\n' && y[0] == '\n');
    lemma_two_fields(l0, l1, a.id as int, a.args@[0] as int, x, b.id as int, b.args@[0] as int, y);
    lemma_two_fields(
        l2,
        l3,
        a.args@[1] as int,
        a.args@[2] as int,
        "\n"@,
        b.args@[1] as int,
        b.args@[2] as int,
        "\n"@,
    );
    assert(a.args@ =~= b.args@);
}

} // verus!
