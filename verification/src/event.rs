use crate::decimal::{
    all_digits, decimal_digits, lemma_decimal_digits_value, lemma_parse_decimal_roundtrip,
    parse_unsigned, parse_unsigned_in,
};
use crate::glyph::Glyph;
use crate::plant_config::{PlantConfig, PlantConfigView};
use crate::text::chars_of;
use vstd::prelude::*;

verus! {

/// Something the main loop has to act on: a command received from the
/// Arduino, or a request of the shell or of the server.
#[derive(Debug)]
pub enum Event {
    Configure(Box<PlantConfig>),
    NewGlyph(u8, Glyph),
    Write(String),
    SetCursor(usize, usize),
    Clear,
    Dispense(u32, u32),
    StartServer(u16),
    JTime(u32),
    JHumi(u32),
    Unknown,
}

/// An event with its texts as sequences of characters.
pub enum EventView {
    Configure(PlantConfigView),
    NewGlyph(u8, Glyph),
    Write(Seq<char>),
    SetCursor(usize, usize),
    Clear,
    Dispense(u32, u32),
    StartServer(u16),
    JTime(u32),
    JHumi(u32),
    Unknown,
}

impl View for Event {
    type V = EventView;

    open spec fn view(&self) -> EventView {
        match self {
            Event::Configure(config) => EventView::Configure((**config)@),
            Event::NewGlyph(c, g) => EventView::NewGlyph(*c, *g),
            Event::Write(text) => EventView::Write(text@),
            Event::SetCursor(x, y) => EventView::SetCursor(*x, *y),
            Event::Clear => EventView::Clear,
            Event::Dispense(duration, wait) => EventView::Dispense(*duration, *wait),
            Event::StartServer(port) => EventView::StartServer(*port),
            Event::JTime(t) => EventView::JTime(*t),
            Event::JHumi(h) => EventView::JHumi(*h),
            Event::Unknown => EventView::Unknown,
        }
    }
}

/// The pieces of `s` between the occurrences of `sep`, as `str::split`
/// gives them: `n` separators make `n + 1` pieces, empty ones included.
pub open spec fn split_on(s: Seq<char>, sep: char) -> Seq<Seq<char>>
    decreases s.len(),
{
    if s.len() == 0 {
        seq![Seq::empty()]
    } else {
        let prev = split_on(s.drop_last(), sep);
        if s.last() == sep {
            prev.push(Seq::empty())
        } else {
            prev.update(prev.len() - 1, prev.last().push(s.last()))
        }
    }
}

/// Whether `i` is the position of the first `c` in `s`.
pub open spec fn is_first_index_of(s: Seq<char>, c: char, i: int) -> bool {
    &&& 0 <= i < s.len()
    &&& s[i] == c
    &&& forall|j: int| 0 <= j < i ==> s[j] != c
}

/// What `str::split_once` gives: the text before and after the first
/// occurrence of `c`, if there is one.
pub open spec fn split_once_at(s: Seq<char>, c: char) -> Option<(Seq<char>, Seq<char>)> {
    if exists|i: int| is_first_index_of(s, c, i) {
        let i = choose|i: int| is_first_index_of(s, c, i);
        Some((s.take(i), s.skip(i + 1)))
    } else {
        None
    }
}

/// The arguments of a glyph command: six comma separated bytes, the
/// character code and then the five columns of the glyph.
pub open spec fn glyph_args(args: Seq<char>) -> Option<(u8, Glyph)> {
    let pieces = split_on(args, ',');
    if pieces.len() == 6 && forall|i: int| 0 <= i < 6 ==> parse_unsigned(#[trigger] pieces[i], 255) is Some {
        let v = |i: int| parse_unsigned(pieces[i], 255)->0 as u8;
        Some((v(0), Glyph([v(1), v(2), v(3), v(4), v(5)])))
    } else {
        None
    }
}

/// The event a line of the serial protocol (its leading `+` removed)
/// stands for; `None` for the malformed lines that cannot be turned into an
/// event at all.
///
/// The first character selects the command and the rest are its
/// arguments: `g` a new glyph, `p` a text to print, `m` the cursor position
/// `x,y`, `c` clearing the screen, `1` and `2` a time and a humidity
/// reading for the server. An empty line or an unknown command is
/// `Unknown`.
pub open spec fn parse_event(s: Seq<char>) -> Option<EventView> {
    if s.len() == 0 {
        Some(EventView::Unknown)
    } else if s[0] as u32 >= 0x80 {
        None
    } else {
        let args = s.drop_first();
        if s[0] == 'g' {
            match glyph_args(args) {
                Some((c, g)) => Some(EventView::NewGlyph(c, g)),
                None => None,
            }
        } else if s[0] == 'p' {
            Some(EventView::Write(args))
        } else if s[0] == 'm' {
            match split_once_at(args, ',') {
                Some((x, y)) => match (
                    parse_unsigned(x, usize::MAX as int),
                    parse_unsigned(y, usize::MAX as int),
                ) {
                    (Some(x), Some(y)) => Some(EventView::SetCursor(x as usize, y as usize)),
                    _ => None,
                },
                None => None,
            }
        } else if s[0] == 'c' {
            Some(EventView::Clear)
        } else if s[0] == '1' {
            match parse_unsigned(args, u32::MAX as int) {
                Some(t) => Some(EventView::JTime(t as u32)),
                None => None,
            }
        } else if s[0] == '2' {
            match parse_unsigned(args, u32::MAX as int) {
                Some(h) => Some(EventView::JHumi(h as u32)),
                None => None,
            }
        } else {
            Some(EventView::Unknown)
        }
    }
}

/// Position of the first `c` in `chars[start..]`, relative to `start`.
fn find_char(chars: &Vec<char>, start: usize, c: char) -> (r: Option<usize>)
    requires
        start <= chars@.len(),
    ensures
        match r {
            Some(i) => is_first_index_of(chars@.skip(start as int), c, i as int),
            None => !exists|i: int| is_first_index_of(chars@.skip(start as int), c, i),
        },
{
    let ghost s = chars@.skip(start as int);
    let mut i = start;
    while i < chars.len()
        invariant
            start <= i <= chars@.len(),
            s == chars@.skip(start as int),
            forall|j: int| 0 <= j < i - start ==> s[j] != c,
        decreases chars@.len() - i,
    {
        if chars[i] == c {
            return Some(i - start);
        }
        i = i + 1;
    }
    assert forall|k: int| !is_first_index_of(s, c, k) by {
        if 0 <= k < s.len() {
            assert(s[k] != c);
        }
    }
    None
}

/// The arguments of a glyph command found in `chars[start..]`.
fn parse_glyph_args(chars: &Vec<char>, start: usize) -> (r: Option<(u8, Glyph)>)
    requires
        start <= chars@.len(),
    ensures
        r == glyph_args(chars@.skip(start as int)),
{
    let ghost args = chars@.skip(start as int);
    let n = chars.len();
    let mut values: Vec<u8> = Vec::new();
    let mut all_ok = true;
    let mut piece_start = start;
    let ghost mut done: Seq<Seq<char>> = Seq::empty();
    let mut i = start;
    assert(args.take(0) =~= Seq::<char>::empty());
    assert(chars@.subrange(start as int, start as int) =~= Seq::<char>::empty());
    while i < n
        invariant
            start <= piece_start <= i <= n,
            n == chars@.len(),
            args == chars@.skip(start as int),
            split_on(args.take(i - start), ',') == done.push(
                chars@.subrange(piece_start as int, i as int),
            ),
            values@.len() == done.len(),
            all_ok <==> forall|k: int| 0 <= k < done.len() ==> parse_unsigned(#[trigger] done[k], 255) is Some,
            forall|k: int|
                0 <= k < done.len() && parse_unsigned(#[trigger] done[k], 255) is Some
                    ==> parse_unsigned(done[k], 255) == Some(values@[k] as nat),
        decreases n - i,
    {
        let c = chars[i];
        let ghost prefix = args.take(i + 1 - start);
        assert(prefix.drop_last() =~= args.take(i - start));
        assert(prefix.last() == c);
        if c == ',' {
            let piece = parse_unsigned_in(chars, piece_start, i, 255);
            let ghost finished = chars@.subrange(piece_start as int, i as int);
            let ghost old_done = done;
            proof {
                done = done.push(finished);
                assert(forall|k: int| 0 <= k < old_done.len() ==> done[k] == old_done[k]);
                assert(done[old_done.len() as int] == finished);
            }
            match piece {
                Some(v) => values.push(v as u8),
                None => {
                    values.push(0);
                    all_ok = false;
                },
            }
            proof {
                if all_ok {
                    assert forall|k: int| 0 <= k < done.len() implies parse_unsigned(#[trigger] done[k], 255) is Some by {
                        if k < old_done.len() {
                            assert(done[k] == old_done[k]);
                        }
                    }
                }
            }
            piece_start = i + 1;
            assert(chars@.subrange(piece_start as int, (i + 1) as int) =~= Seq::<char>::empty());
        } else {
            assert(chars@.subrange(piece_start as int, (i + 1) as int) =~= chars@.subrange(
                piece_start as int,
                i as int,
            ).push(c));
        }
        i = i + 1;
    }
    assert(args.take(n - start) =~= args);
    let last = parse_unsigned_in(chars, piece_start, n, 255);
    let ghost pieces = done.push(chars@.subrange(piece_start as int, n as int));
    match last {
        Some(v) => values.push(v as u8),
        None => {
            values.push(0);
            all_ok = false;
        },
    }
    if all_ok && values.len() == 6 {
        proof {
            assert forall|k: int| 0 <= k < 6 implies parse_unsigned(#[trigger] pieces[k], 255) is Some by {
                if k < 5 {
                    assert(pieces[k] == done[k]);
                }
            }
            assert(pieces[0] == done[0] && pieces[1] == done[1] && pieces[2] == done[2]);
            assert(pieces[3] == done[3] && pieces[4] == done[4]);
            assert(parse_unsigned(pieces[0], 255) is Some);
            assert(parse_unsigned(pieces[5], 255) is Some);
        }
        Some((values[0], Glyph([values[1], values[2], values[3], values[4], values[5]])))
    } else {
        proof {
            if pieces.len() == 6 {
                if !all_ok {
                    if parse_unsigned(pieces[5], 255) is Some {
                        let k = choose|k: int| 0 <= k < done.len() && !(parse_unsigned(#[trigger] done[k], 255) is Some);
                        assert(pieces[k] == done[k]);
                    }
                }
            }
        }
        None
    }
}

impl Event {
    /// Reads a line of the serial protocol (its leading `+` removed), or
    /// `None` where the line is malformed.
    pub fn parse(s: &str) -> (r: Option<Event>)
        ensures
            match r {
                Some(e) => parse_event(s@) == Some(e@),
                None => parse_event(s@) is None,
            },
    {
        let chars = chars_of(s);
        let n = chars.len();
        if n == 0 {
            return Some(Event::Unknown);
        }
        let command = chars[0];
        if command as u32 >= 0x80 {
            return None;
        }
        let ghost args = s@.drop_first();
        assert(chars@.skip(1) =~= args);
        if command == 'g' {
            match parse_glyph_args(&chars, 1) {
                Some((c, g)) => Some(Event::NewGlyph(c, g)),
                None => None,
            }
        } else if command == 'p' {
            let rest = s.substring_char(1, n);
            Some(Event::Write(rest.to_owned()))
        } else if command == 'm' {
            match find_char(&chars, 1, ',') {
                Some(i) => {
                    let comma = i + 1;
                    proof {
                        assert(is_first_index_of(args, ',', i as int));
                        let j = choose|j: int| is_first_index_of(args, ',', j);
                        if j < i {
                            assert(args[j] != ',');
                        }
                        if i < j {
                            assert(args[i as int] != ',');
                        }
                        assert(chars@.subrange(1, comma as int) =~= args.take(i as int));
                        assert(chars@.subrange(comma + 1, n as int) =~= args.skip(i + 1));
                    }
                    let x = parse_unsigned_in(&chars, 1, comma, usize::MAX as u64);
                    let y = parse_unsigned_in(&chars, comma + 1, n, usize::MAX as u64);
                    match (x, y) {
                        (Some(x), Some(y)) => Some(Event::SetCursor(x as usize, y as usize)),
                        _ => None,
                    }
                },
                None => None,
            }
        } else if command == 'c' {
            Some(Event::Clear)
        } else if command == '1' || command == '2' {
            assert(chars@.subrange(1, n as int) =~= args);
            match parse_unsigned_in(&chars, 1, n, u32::MAX as u64) {
                Some(v) => if command == '1' {
                    Some(Event::JTime(v as u32))
                } else {
                    Some(Event::JHumi(v as u32))
                },
                None => None,
            }
        } else {
            Some(Event::Unknown)
        }
    }
}

impl std::str::FromStr for Event {
    type Err = ();

    /// Reads a well-formed line of the serial protocol (see `parse_event`;
    /// `Event::parse` tells whether a line is one).
    fn from_str(s: &str) -> (r: Result<Self, Self::Err>)
        requires
            parse_event(s@) is Some,
        ensures
            r matches Ok(e) && parse_event(s@) == Some(e@),
    {
        match Event::parse(s) {
            Some(e) => Ok(e),
            None => Err(()),
        }
    }
}

/// Where a line received on the serial port goes.
pub enum SerialLine {
    /// An empty line, or one holding a NUL character: ignored.
    Skip,
    /// A line starting with `+`: a command, given without its `+`.
    Command(String),
    /// Any other line: a log message of the Arduino.
    Log(String),
}

/// Sorts a line received on the serial port.
pub fn route_serial_line(line: &str) -> (r: SerialLine)
    ensures
        r is Skip <==> (line@.len() == 0 || line@.contains('\0')),
        r is Command <==> (line@.len() > 0 && !line@.contains('\0') && line@[0] == '+'),
        r matches SerialLine::Command(c) ==> c@ == line@.drop_first(),
        r matches SerialLine::Log(l) ==> l@ == line@,
{
    let chars = chars_of(line);
    let n = chars.len();
    if n == 0 {
        return SerialLine::Skip;
    }
    let mut i: usize = 0;
    while i < n
        invariant
            n == chars@.len(),
            chars@ == line@,
            i <= n,
            forall|j: int| 0 <= j < i ==> chars@[j] != '\0',
        decreases n - i,
    {
        if chars[i] == '\0' {
            assert(line@[i as int] == '\0');
            return SerialLine::Skip;
        }
        i = i + 1;
    }
    assert(!line@.contains('\0'));
    if chars[0] == '+' {
        let rest = line.substring_char(1, n);
        assert(rest@ =~= line@.drop_first());
        SerialLine::Command(rest.to_owned())
    } else {
        SerialLine::Log(line.to_owned())
    }
}

/// The serial line that prints `text`.
pub open spec fn write_command(text: Seq<char>) -> Seq<char> {
    seq!['p'] + text
}

/// The serial line that moves the cursor to cell (`x`, `y`).
pub open spec fn cursor_command(x: nat, y: nat) -> Seq<char> {
    seq!['m'] + decimal_digits(x) + seq![','] + decimal_digits(y)
}

/// The serial line that reports time reading `t`.
pub open spec fn time_command(t: nat) -> Seq<char> {
    seq!['1'] + decimal_digits(t)
}

/// The serial line that reports humidity reading `h`.
pub open spec fn humidity_command(h: nat) -> Seq<char> {
    seq!['2'] + decimal_digits(h)
}

/// The serial line that stores glyph `g` under code `c`.
pub open spec fn glyph_command(c: u8, g: Glyph) -> Seq<char> {
    seq!['g'] + decimal_digits(c as nat) + seq![','] + decimal_digits(g.0@[0] as nat) + seq![',']
        + decimal_digits(g.0@[1] as nat) + seq![','] + decimal_digits(g.0@[2] as nat) + seq![',']
        + decimal_digits(g.0@[3] as nat) + seq![','] + decimal_digits(g.0@[4] as nat)
}

proof fn lemma_split_len(s: Seq<char>, sep: char)
    ensures
        split_on(s, sep).len() >= 1,
    decreases s.len(),
{
    if s.len() > 0 {
        lemma_split_len(s.drop_last(), sep);
    }
}

proof fn lemma_split_without_sep(a: Seq<char>, sep: char)
    requires
        !a.contains(sep),
    ensures
        split_on(a, sep) == seq![a],
    decreases a.len(),
{
    if a.len() > 0 {
        assert(!a.drop_last().contains(sep)) by {
            if a.drop_last().contains(sep) {
                let j = choose|j: int| 0 <= j < a.drop_last().len() && a.drop_last()[j] == sep;
                assert(a[j] == sep);
            }
        }
        lemma_split_without_sep(a.drop_last(), sep);
        assert(a.last() != sep) by {
            assert(a[a.len() - 1] == a.last());
        }
        assert(a.drop_last().push(a.last()) =~= a);
    } else {
        assert(a =~= Seq::<char>::empty());
    }
}

proof fn lemma_split_after_sep(a: Seq<char>, sep: char, b: Seq<char>)
    requires
        !a.contains(sep),
    ensures
        split_on(a + seq![sep] + b, sep) == seq![a] + split_on(b, sep),
    decreases b.len(),
{
    let s = a + seq![sep] + b;
    if b.len() == 0 {
        assert(s.drop_last() =~= a);
        lemma_split_without_sep(a, sep);
        assert(split_on(s, sep) =~= seq![a] + split_on(b, sep));
    } else {
        lemma_split_after_sep(a, sep, b.drop_last());
        assert(s.drop_last() =~= a + seq![sep] + b.drop_last());
        lemma_split_len(b.drop_last(), sep);
        assert(split_on(s, sep) =~= seq![a] + split_on(b, sep));
    }
}

proof fn lemma_digits_have_no(n: nat, c: char)
    requires
        !('0' <= c && c <= '9'),
    ensures
        !decimal_digits(n).contains(c),
{
    lemma_decimal_digits_value(n);
    if decimal_digits(n).contains(c) {
        let j = choose|j: int| 0 <= j < decimal_digits(n).len() && decimal_digits(n)[j] == c;
        assert(all_digits(decimal_digits(n)));
        assert(crate::decimal::is_digit(decimal_digits(n)[j]));
    }
}

/// A print command gives back its text.
pub proof fn lemma_write_command_parses(text: Seq<char>)
    ensures
        parse_event(write_command(text)) == Some(EventView::Write(text)),
{
    assert(write_command(text).drop_first() =~= text);
}

/// A time or humidity report gives back its reading.
pub proof fn lemma_reading_commands_parse(v: u32)
    ensures
        parse_event(time_command(v as nat)) == Some(EventView::JTime(v)),
        parse_event(humidity_command(v as nat)) == Some(EventView::JHumi(v)),
{
    lemma_parse_decimal_roundtrip(v as nat, u32::MAX as int);
    assert(time_command(v as nat).drop_first() =~= decimal_digits(v as nat));
    assert(humidity_command(v as nat).drop_first() =~= decimal_digits(v as nat));
}

/// A cursor command gives back its position.
pub proof fn lemma_cursor_command_parses(x: usize, y: usize)
    ensures
        parse_event(cursor_command(x as nat, y as nat)) == Some(EventView::SetCursor(x, y)),
{
    let dx = decimal_digits(x as nat);
    let dy = decimal_digits(y as nat);
    let args = cursor_command(x as nat, y as nat).drop_first();
    assert(args =~= dx + seq![','] + dy);
    lemma_digits_have_no(x as nat, ',');
    lemma_parse_decimal_roundtrip(x as nat, usize::MAX as int);
    lemma_parse_decimal_roundtrip(y as nat, usize::MAX as int);
    let l = dx.len() as int;
    assert forall|j: int| 0 <= j < l implies args[j] != ',' by {
        assert(args[j] == dx[j]);
    }
    assert(is_first_index_of(args, ',', l));
    let i = choose|i: int| is_first_index_of(args, ',', i);
    if i < l {
        assert(args[i] != ',');
    }
    if i > l {
        assert(args[l] != ',');
    }
    assert(args.take(l) =~= dx);
    assert(args.skip(l + 1) =~= dy);
}

/// The comma separated pieces of a glyph command's arguments.
proof fn lemma_glyph_command_pieces(c: u8, g: Glyph)
    ensures
        split_on(glyph_command(c, g).drop_first(), ',') == seq![
            decimal_digits(c as nat),
            decimal_digits(g.0@[0] as nat),
            decimal_digits(g.0@[1] as nat),
            decimal_digits(g.0@[2] as nat),
            decimal_digits(g.0@[3] as nat),
            decimal_digits(g.0@[4] as nat),
        ],
{
    let d0 = decimal_digits(c as nat);
    let d1 = decimal_digits(g.0@[0] as nat);
    let d2 = decimal_digits(g.0@[1] as nat);
    let d3 = decimal_digits(g.0@[2] as nat);
    let d4 = decimal_digits(g.0@[3] as nat);
    let d5 = decimal_digits(g.0@[4] as nat);
    let comma = seq![','];
    let t4 = d4 + comma + d5;
    let t3 = d3 + comma + t4;
    let t2 = d2 + comma + t3;
    let t1 = d1 + comma + t2;
    assert(glyph_command(c, g).drop_first() =~= d0 + comma + t1);
    lemma_digits_have_no(c as nat, ',');
    lemma_digits_have_no(g.0@[0] as nat, ',');
    lemma_digits_have_no(g.0@[1] as nat, ',');
    lemma_digits_have_no(g.0@[2] as nat, ',');
    lemma_digits_have_no(g.0@[3] as nat, ',');
    lemma_digits_have_no(g.0@[4] as nat, ',');
    lemma_split_without_sep(d5, ',');
    lemma_split_after_sep(d4, ',', d5);
    lemma_split_after_sep(d3, ',', t4);
    lemma_split_after_sep(d2, ',', t3);
    lemma_split_after_sep(d1, ',', t2);
    lemma_split_after_sep(d0, ',', t1);
    assert(split_on(d0 + comma + t1, ',') =~= seq![d0, d1, d2, d3, d4, d5]);
}

/// A glyph command gives back its code and glyph.
pub proof fn lemma_glyph_command_parses(c: u8, g: Glyph)
    ensures
        parse_event(glyph_command(c, g)) == Some(EventView::NewGlyph(c, g)),
{
    lemma_glyph_command_pieces(c, g);
    let pieces = split_on(glyph_command(c, g).drop_first(), ',');
    lemma_parse_decimal_roundtrip(c as nat, 255);
    lemma_parse_decimal_roundtrip(g.0@[0] as nat, 255);
    lemma_parse_decimal_roundtrip(g.0@[1] as nat, 255);
    lemma_parse_decimal_roundtrip(g.0@[2] as nat, 255);
    lemma_parse_decimal_roundtrip(g.0@[3] as nat, 255);
    lemma_parse_decimal_roundtrip(g.0@[4] as nat, 255);
    assert(forall|i: int| 0 <= i < 6 ==> parse_unsigned(#[trigger] pieces[i], 255) is Some);
    let v = |i: int| parse_unsigned(pieces[i], 255)->0 as u8;
    assert(Glyph([v(1), v(2), v(3), v(4), v(5)]).0 =~= g.0);
}

} // verus!
