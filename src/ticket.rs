//! The receipt, as the ESC/POS byte protocol of the receipt printer spells it.
use vstd::prelude::*;
use crate::text::push_char;

verus! {

/// Resets the printer.
pub const RESET: &'static str = "\x1B\x40";

/// Centres the text.
pub const ALIGN_CENTER: &'static str = "\x1B\x61\x01";

/// Left-aligns the text.
pub const ALIGN_LEFT: &'static str = "\x1B\x61\x00";

/// Double width and height, for titles.
pub const DOUBLE_SIZE: &'static str = "\x1D\x21\x11";

/// Normal text size.
pub const NORMAL_SIZE: &'static str = "\x1D\x21\x00";

/// Cuts the paper.
pub const CUT: &'static str = "\x1D\x56\x00";

/// The title lines.
pub const TITLE: &'static str = "FACTURA\nAUTOLAVAGGIO\n";

/// The rule and the closing text printed under the fields.
pub const FOOTER: &'static str = "-----------------------------\nEste documento no tiene ninguna validez tributaria. Su factura electronica llegara a su correo electronico.\nGracias por su compra!\n";

/// What one receipt shows. The amount is in hundredths (cents). The text fields are
/// printed as they are, so they must hold no control characters.
pub struct Invoice {
    pub number: String,
    pub card: String,
    pub auth: String,
    pub name: String,
    pub amount_cents: i64,
}

/// The decimal digit `d`.
pub open spec fn digit(d: int) -> char {
    seq!['0', '1', '2', '3', '4', '5', '6', '7', '8', '9'][d]
}

/// The decimal notation of `n`, without leading zeros.
pub open spec fn digits(n: nat) -> Seq<char>
    decreases n,
{
    if n < 10 {
        seq![digit(n as int)]
    } else {
        digits(n / 10).push(digit((n % 10) as int))
    }
}

/// The absolute value of `x`.
pub open spec fn abs(x: int) -> nat {
    if x < 0 {
        (-x) as nat
    } else {
        x as nat
    }
}

/// An amount of cents as units with exactly two decimals: `150` is `1.50`,
/// `-5` is `-0.05`.
pub open spec fn amount_text(cents: int) -> Seq<char> {
    let m = abs(cents);
    let sign: Seq<char> = if cents < 0 {
        seq!['-']
    } else {
        Seq::empty()
    };
    sign + digits(m / 100) + seq!['.', digit(((m % 100) / 10) as int), digit((m % 10) as int)]
}

/// Everything between the reset and the cut.
pub open spec fn ticket_body(inv: Invoice, stamp: Seq<char>) -> Seq<char> {
    ALIGN_CENTER@ + DOUBLE_SIZE@ + TITLE@ + NORMAL_SIZE@ + "\n"@ + ALIGN_LEFT@ + "Cliente: "@
        + inv.number@ + "\nProducto: "@ + inv.name@ + "\nPrecio: $"@ + amount_text(
        inv.amount_cents as int,
    ) + "\ncard: "@ + inv.card@ + "\nAutorización: "@ + inv.auth@ + "\nFecha: "@ + stamp
        + "\n\n\n"@ + NORMAL_SIZE@ + FOOTER@
}

/// The receipt for `inv`, printed at the time `stamp`.
pub open spec fn ticket_text(inv: Invoice, stamp: Seq<char>) -> Seq<char> {
    RESET@ + ticket_body(inv, stamp) + CUT@
}

/// The digit `d` as a character.
pub fn digit_char(d: u64) -> (r: char)
    requires
        d < 10,
    ensures
        r == digit(d as int),
{
    if d == 0 {
        '0'
    } else if d == 1 {
        '1'
    } else if d == 2 {
        '2'
    } else if d == 3 {
        '3'
    } else if d == 4 {
        '4'
    } else if d == 5 {
        '5'
    } else if d == 6 {
        '6'
    } else if d == 7 {
        '7'
    } else if d == 8 {
        '8'
    } else {
        '9'
    }
}

/// Appends the decimal notation of `n`.
pub fn push_digits(s: &mut String, n: u64)
    ensures
        final(s)@ == old(s)@ + digits(n as nat),
    decreases n,
{
    if n >= 10 {
        push_digits(s, n / 10);
    }
    push_char(s, digit_char(n % 10));
    assert(s@ =~= old(s)@ + digits(n as nat));
}

/// The amount `cents` as units with exactly two decimals.
pub fn format_amount(cents: i64) -> (r: String)
    ensures
        r@ == amount_text(cents as int),
        r@.len() >= 4,
        r@[r@.len() - 3] == '.',
        r@[r@.len() - 2] == digit(((abs(cents as int) % 100) / 10) as int),
        r@[r@.len() - 1] == digit((abs(cents as int) % 10) as int),
{
    let m: u64 = if cents < 0 {
        (-(cents + 1)) as u64 + 1
    } else {
        cents as u64
    };
    assert(m == abs(cents as int));
    let mut r = String::new();
    if cents < 0 {
        push_char(&mut r, '-');
    }
    push_digits(&mut r, m / 100);
    push_char(&mut r, '.');
    push_char(&mut r, digit_char((m % 100) / 10));
    push_char(&mut r, digit_char(m % 10));
    let ghost sign: Seq<char> = if cents < 0 {
        seq!['-']
    } else {
        Seq::empty()
    };
    assert(r@ =~= sign + digits((m / 100) as nat) + seq![
        '.',
        digit((((m % 100) / 10)) as int),
        digit((m % 10) as int),
    ]);
    r
}

/// The receipt for `inv`, stamped with `stamp` (`DD/MM/YYYY HH:MM:SS`): reset,
/// centred double-size title, then left-aligned customer, product, price with two
/// decimals, card, authorisation and date, the footer, and the cut.
pub fn encode_ticket(inv: &Invoice, stamp: &str) -> (r: String)
    ensures
        r@ == ticket_text(*inv, stamp@),
{
    let mut b = String::new();
    b.append(ALIGN_CENTER);
    b.append(DOUBLE_SIZE);
    b.append(TITLE);
    b.append(NORMAL_SIZE);
    b.append("\n");
    b.append(ALIGN_LEFT);
    b.append("Cliente: ");
    b.append(inv.number.as_str());
    b.append("\nProducto: ");
    b.append(inv.name.as_str());
    b.append("\nPrecio: $");
    let amount = format_amount(inv.amount_cents);
    b.append(amount.as_str());
    b.append("\ncard: ");
    b.append(inv.card.as_str());
    b.append("\nAutorización: ");
    b.append(inv.auth.as_str());
    b.append("\nFecha: ");
    b.append(stamp);
    b.append("\n\n\n");
    b.append(NORMAL_SIZE);
    b.append(FOOTER);
    let mut r = String::new();
    r.append(RESET);
    r.append(b.as_str());
    r.append(CUT);
    assert(r@ =~= Seq::<char>::empty() + RESET@ + b@ + CUT@);
    assert(Seq::<char>::empty() + RESET@ =~= RESET@);
    r
}

/// A local date and time, as the receipt prints it.
pub struct Timestamp {
    pub year: i32,
    pub month: u8,
    pub day: u8,
    pub hour: u8,
    pub minute: u8,
    pub second: u8,
}

impl Timestamp {
    /// The fields lie in their calendar ranges (a leap second may read 60).
    pub open spec fn wf(&self) -> bool {
        &&& 1 <= self.month <= 12
        &&& 1 <= self.day <= 31
        &&& self.hour < 24
        &&& self.minute < 60
        &&& self.second <= 60
    }

    /// A timestamp of these fields, or `None` where one is out of its range.
    pub fn new(year: i32, month: u8, day: u8, hour: u8, minute: u8, second: u8) -> (r: Option<
        Timestamp,
    >)
        ensures
            r matches Some(t) ==> t.wf() && t == (Timestamp { year, month, day, hour, minute, second }),
            r is None <==> !(Timestamp { year, month, day, hour, minute, second }).wf(),
    {
        let t = Timestamp { year, month, day, hour, minute, second };
        if 1 <= month && month <= 12 && 1 <= day && day <= 31 && hour < 24 && minute < 60 && second
            <= 60 {
            Some(t)
        } else {
            None
        }
    }
}

/// The last `w` decimal digits of `n`, with leading zeros.
pub open spec fn fixed_digits(n: nat, w: nat) -> Seq<char>
    decreases w,
{
    if w == 0 {
        Seq::empty()
    } else {
        fixed_digits(n / 10, (w - 1) as nat).push(digit((n % 10) as int))
    }
}

/// Appends the last `w` decimal digits of `n`, with leading zeros.
pub fn push_fixed_digits(s: &mut String, n: u64, w: u64)
    ensures
        final(s)@ == old(s)@ + fixed_digits(n as nat, w as nat),
    decreases w,
{
    if w > 0 {
        push_fixed_digits(s, n / 10, w - 1);
        push_char(s, digit_char(n % 10));
    }
    assert(s@ =~= old(s)@ + fixed_digits(n as nat, w as nat));
}

/// The year: four digits with leading zeros from 0 to 9999; outside that range a
/// sign (`+` or `-`) and at least four digits.
pub open spec fn year_text(y: int) -> Seq<char> {
    if 0 <= y <= 9999 {
        fixed_digits(y as nat, 4)
    } else {
        let sign: Seq<char> = if y < 0 {
            seq!['-']
        } else {
            seq!['+']
        };
        sign + if abs(y) < 10000 {
            fixed_digits(abs(y), 4)
        } else {
            digits(abs(y))
        }
    }
}

/// The time `t` written as `DD/MM/YYYY HH:MM:SS`.
pub open spec fn stamp_text(t: Timestamp) -> Seq<char> {
    fixed_digits(t.day as nat, 2) + seq!['/'] + fixed_digits(t.month as nat, 2) + seq!['/']
        + year_text(t.year as int) + seq![' '] + fixed_digits(t.hour as nat, 2) + seq![':']
        + fixed_digits(t.minute as nat, 2) + seq![':'] + fixed_digits(t.second as nat, 2)
}

/// Writes `t` as `DD/MM/YYYY HH:MM:SS`.
pub fn format_timestamp(t: &Timestamp) -> (r: String)
    requires
        t.wf(),
    ensures
        r@ == stamp_text(*t),
{
    let mut r = String::new();
    push_fixed_digits(&mut r, t.day as u64, 2);
    push_char(&mut r, '/');
    push_fixed_digits(&mut r, t.month as u64, 2);
    push_char(&mut r, '/');
    let y = t.year as i64;
    let m: u64 = if y < 0 {
        (-y) as u64
    } else {
        y as u64
    };
    assert(m == abs(t.year as int));
    if 0 <= y && y <= 9999 {
        push_fixed_digits(&mut r, m, 4);
    } else {
        push_char(&mut r, if y < 0 { '-' } else { '+' });
        if m < 10000 {
            push_fixed_digits(&mut r, m, 4);
        } else {
            push_digits(&mut r, m);
        }
    }
    push_char(&mut r, ' ');
    push_fixed_digits(&mut r, t.hour as u64, 2);
    push_char(&mut r, ':');
    push_fixed_digits(&mut r, t.minute as u64, 2);
    push_char(&mut r, ':');
    push_fixed_digits(&mut r, t.second as u64, 2);
    assert(r@ =~= Seq::<char>::empty() + stamp_text(*t));
    r
}

/// The receipt for `inv`, printed at the time `t`.
pub fn encode_ticket_at(inv: &Invoice, t: &Timestamp) -> (r: String)
    requires
        t.wf(),
    ensures
        r@ == ticket_text(*inv, stamp_text(*t)),
{
    let stamp = format_timestamp(t);
    encode_ticket(inv, stamp.as_str())
}

/// Every receipt begins with the reset command and ends with the cut command.
pub proof fn lemma_ticket_framing(inv: Invoice, stamp: Seq<char>)
    ensures
        ticket_text(inv, stamp).len() >= RESET@.len() + CUT@.len(),
        ticket_text(inv, stamp).take(RESET@.len() as int) == RESET@,
        ticket_text(inv, stamp).skip(ticket_text(inv, stamp).len() - CUT@.len()) == CUT@,
{
    let t = ticket_text(inv, stamp);
    assert(t.take(RESET@.len() as int) =~= RESET@);
    assert(t.skip(t.len() - CUT@.len()) =~= CUT@);
}

/// The price on a receipt always has exactly two decimal digits: the amount's
/// text ends with a point and two digits, and the receipt holds it after `$`.
pub proof fn lemma_amount_two_decimals(cents: int)
    ensures
        amount_text(cents).len() >= 4,
        amount_text(cents)[amount_text(cents).len() - 3] == '.',
        amount_text(cents)[amount_text(cents).len() - 2] == digit(((abs(cents) % 100) / 10) as int),
        amount_text(cents)[amount_text(cents).len() - 1] == digit((abs(cents) % 10) as int),
{
    lemma_digits_nonempty(abs(cents) / 100);
}

/// Every number has at least one digit.
pub proof fn lemma_digits_nonempty(n: nat)
    ensures
        digits(n).len() >= 1,
    decreases n,
{
    if n >= 10 {
        lemma_digits_nonempty(n / 10);
    }
}

} // verus!
