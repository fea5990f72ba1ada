//! The configuration of the daemon and the names of its archives.
//!
//! An archive is named `{base}.{time}.{extensions}`. The time is written as
//! `YYYY-MM-DDTHHhMMmSSs` followed by the offset from UTC as a sign and
//! `HHMM`, where `_` stands for a plus sign. The extensions are `tar`,
//! then `xz` where the archive is compressed, then `age` where it is
//! encrypted.

use crate::archive::ArchiveEntryConfig;
use crate::compress::CompressorConfig;
use crate::encrypt::EncryptorConfig;
use crate::file_ext::FileExtProvider;
use crate::retention::RetentionConfig;
use crate::text::{
    chars_of, digit_char, digit_value, digits_at, is_digit, ends_with, has_at, number_at, push_all, push_four_digits,
    push_two_digits, read_number, starts_with, string_of,
};
use crate::timestamp::{
    calendar_day, calendar_day_number, calendar_month, calendar_year, day_number_of_date, Timestamp,
    MAX_SECS, MIN_SECS,
};
use vstd::prelude::*;

verus! {

/// The number of characters of the time in a name.
pub const TIME_TEXT_LEN: usize = 25;

/// What the daemon is asked to do.
#[derive(Clone)]
pub struct BackupConfig {
    /// When to make an archive: a cron expression of five fields, in UTC.
    pub cron: String,
    /// The first part of the name of each archive.
    pub archive_base_name: String,
    /// The directory in which the archives are kept.
    pub out_dir: String,
    /// The sources of an archive.
    pub files: Vec<ArchiveEntryConfig>,
    /// Whether and how an archive is compressed.
    pub compressor: CompressorConfig,
    /// Whether and how an archive is encrypted.
    pub encryptor: EncryptorConfig,
    /// Which archives to delete, if any.
    pub retention: Option<RetentionConfig>,
}

/// An offset from UTC in whole minutes, counted to the east.
#[derive(Clone, Copy, Debug, PartialEq, Eq, Structural)]
pub struct UtcOffset {
    /// Minutes that local time is ahead of UTC; negative to the west.
    pub east_minutes: i32,
}

impl UtcOffset {
    /// Whether the offset is less than a day, either way.
    pub open spec fn valid(self) -> bool {
        -1440 < self.east_minutes < 1440
    }

    /// No offset: UTC itself.
    pub fn utc() -> (offset: UtcOffset)
        ensures
            offset.east_minutes == 0,
            offset.valid(),
    {
        UtcOffset { east_minutes: 0 }
    }

    /// The offset of `hours` and `minutes` to the east.
    pub fn east(hours: u8, minutes: u8) -> (offset: UtcOffset)
        ensures
            offset.east_minutes == hours * 60 + minutes,
    {
        UtcOffset { east_minutes: hours as i32 * 60 + minutes as i32 }
    }

    /// The offset of `hours` and `minutes` to the west.
    pub fn west(hours: u8, minutes: u8) -> (offset: UtcOffset)
        ensures
            offset.east_minutes == -(hours * 60 + minutes),
    {
        UtcOffset { east_minutes: -(hours as i32 * 60 + minutes as i32) }
    }
}

/// The text of a local time of day on a calendar date, followed by the
/// offset of local time from UTC: a sign and `HHMM`. A minus sign stands
/// as it is; in place of a plus sign stands `_`.
pub open spec fn offset_time_text(
    year: int,
    month: int,
    day: int,
    hour: int,
    minute: int,
    second: int,
    west: bool,
    offset_hour: int,
    offset_minute: int,
) -> Seq<char> {
    seq![
        digit_char(year / 1000),
        digit_char((year / 100) % 10),
        digit_char((year / 10) % 10),
        digit_char(year % 10),
        '-',
        digit_char(month / 10),
        digit_char(month % 10),
        '-',
        digit_char(day / 10),
        digit_char(day % 10),
        'T',
        digit_char(hour / 10),
        digit_char(hour % 10),
        'h',
        digit_char(minute / 10),
        digit_char(minute % 10),
        'm',
        digit_char(second / 10),
        digit_char(second % 10),
        's',
        if west {
            '-'
        } else {
            '_'
        },
        digit_char(offset_hour / 10),
        digit_char(offset_hour % 10),
        digit_char(offset_minute / 10),
        digit_char(offset_minute % 10),
    ]
}

/// The text of a UTC time of day on a calendar date.
pub open spec fn time_text(
    year: int,
    month: int,
    day: int,
    hour: int,
    minute: int,
    second: int,
) -> Seq<char> {
    offset_time_text(year, month, day, hour, minute, second, false, 0, 0)
}

/// The text of an instant as local time at an offset of `east_minutes`
/// from UTC.
pub open spec fn time_text_at(dt: Timestamp, east_minutes: int) -> Seq<char> {
    let local = dt.epoch_secs() + east_minutes * 60;
    let distance = if east_minutes < 0 {
        -east_minutes
    } else {
        east_minutes
    };
    offset_time_text(
        calendar_year(local / 86_400),
        calendar_month(local / 86_400),
        calendar_day(local / 86_400),
        (local % 86_400) / 3600,
        ((local % 86_400) / 60) % 60,
        (local % 86_400) % 60,
        east_minutes < 0,
        distance / 60,
        distance % 60,
    )
}

/// Whether an instant can be written as local time at an offset: the
/// offset is less than a day, and local time lies in the years 0000 to
/// 9999.
pub open spec fn writable_at(dt: Timestamp, offset: UtcOffset) -> bool {
    offset.valid() && MIN_SECS <= dt.epoch_secs() + offset.east_minutes * 60 <= MAX_SECS
}

/// The text of an instant.
pub open spec fn time_text_of(dt: Timestamp) -> Seq<char> {
    time_text(
        dt.spec_year(),
        dt.spec_month(),
        dt.spec_day(),
        dt.spec_second_of_day() / 3600,
        (dt.spec_second_of_day() / 60) % 60,
        dt.spec_second_of_day() % 60,
    )
}

/// Whether `text` has the form of a time: digits and the fixed characters
/// at their places, 25 characters in all.
pub open spec fn is_time_text(text: Seq<char>) -> bool {
    &&& text.len() == TIME_TEXT_LEN
    &&& digits_at(text, 0, 4)
    &&& text[4] == '-'
    &&& digits_at(text, 5, 2)
    &&& text[7] == '-'
    &&& digits_at(text, 8, 2)
    &&& text[10] == 'T'
    &&& digits_at(text, 11, 2)
    &&& text[13] == 'h'
    &&& digits_at(text, 14, 2)
    &&& text[16] == 'm'
    &&& digits_at(text, 17, 2)
    &&& text[19] == 's'
    &&& (text[20] == '_' || text[20] == '-')
    &&& digits_at(text, 21, 2)
    &&& digits_at(text, 23, 2)
}

/// The instant that `text` names, in seconds since 1970-01-01T00:00:00Z:
/// the local time it spells, moved by its offset. `None` where `text` has
/// not the form of a time, a field is out of its range, the date does not
/// exist, or the instant lies outside the years 0000 to 9999.
pub open spec fn time_text_secs(text: Seq<char>) -> Option<int> {
    if !is_time_text(text) {
        None
    } else {
        let hour = number_at(text, 11, 2);
        let minute = number_at(text, 14, 2);
        let second = number_at(text, 17, 2);
        let offset_hour = number_at(text, 21, 2);
        let offset_minute = number_at(text, 23, 2);
        let date = calendar_day_number(
            number_at(text, 0, 4),
            number_at(text, 5, 2),
            number_at(text, 8, 2),
        );
        if hour >= 24 || minute >= 60 || second >= 60 || offset_hour >= 24 || offset_minute >= 60
            || date.is_none() {
            None
        } else {
            let local = date.unwrap() * 86_400 + hour * 3600 + minute * 60 + second;
            let offset = offset_hour * 3600 + offset_minute * 60;
            let secs = if text[20] == '_' {
                local - offset
            } else {
                local + offset
            };
            if MIN_SECS <= secs <= MAX_SECS {
                Some(secs)
            } else {
                None
            }
        }
    }
}

/// Two digits written at a place of a text spell their number.
proof fn lemma_two_digits_at(text: Seq<char>, start: int, n: int)
    requires
        0 <= n < 100,
        0 <= start,
        start + 2 <= text.len(),
        text[start] == digit_char(n / 10),
        text[start + 1] == digit_char(n % 10),
    ensures
        digits_at(text, start, 2),
        number_at(text, start, 2) == n,
{
    reveal_with_fuel(number_at, 3);
    lemma_digit_char(n / 10);
    lemma_digit_char(n % 10);
}

/// Four digits written at a place of a text spell their number.
proof fn lemma_four_digits_at(text: Seq<char>, start: int, n: int)
    requires
        0 <= n < 10000,
        0 <= start,
        start + 4 <= text.len(),
        text[start] == digit_char(n / 1000),
        text[start + 1] == digit_char((n / 100) % 10),
        text[start + 2] == digit_char((n / 10) % 10),
        text[start + 3] == digit_char(n % 10),
    ensures
        digits_at(text, start, 4),
        number_at(text, start, 4) == n,
{
    reveal_with_fuel(number_at, 5);
    lemma_digit_char(n / 1000);
    lemma_digit_char((n / 100) % 10);
    lemma_digit_char((n / 10) % 10);
    lemma_digit_char(n % 10);
}

/// The character of a digit has the value of that digit.
proof fn lemma_digit_char(d: int)
    requires
        0 <= d < 10,
    ensures
        digit_value(digit_char(d)) == d,
{
}

/// The text of a time spells its own fields, its sign and its offset.
pub proof fn lemma_offset_time_text_reads_back(
    year: int,
    month: int,
    day: int,
    hour: int,
    minute: int,
    second: int,
    west: bool,
    offset_hour: int,
    offset_minute: int,
)
    requires
        0 <= year < 10000,
        0 <= month < 100,
        0 <= day < 100,
        0 <= hour < 100,
        0 <= minute < 100,
        0 <= second < 100,
        0 <= offset_hour < 100,
        0 <= offset_minute < 100,
    ensures
        ({
            let text = offset_time_text(
                year,
                month,
                day,
                hour,
                minute,
                second,
                west,
                offset_hour,
                offset_minute,
            );
            &&& is_time_text(text)
            &&& number_at(text, 0, 4) == year
            &&& number_at(text, 5, 2) == month
            &&& number_at(text, 8, 2) == day
            &&& number_at(text, 11, 2) == hour
            &&& number_at(text, 14, 2) == minute
            &&& number_at(text, 17, 2) == second
            &&& number_at(text, 21, 2) == offset_hour
            &&& number_at(text, 23, 2) == offset_minute
            &&& text[20] == (if west {
                '-'
            } else {
                '_'
            })
            &&& forall|i: int| 0 <= i < text.len() ==> #[trigger] text[i] != '+'
        }),
{
    let text = offset_time_text(
        year,
        month,
        day,
        hour,
        minute,
        second,
        west,
        offset_hour,
        offset_minute,
    );
    lemma_four_digits_at(text, 0, year);
    lemma_two_digits_at(text, 5, month);
    lemma_two_digits_at(text, 8, day);
    lemma_two_digits_at(text, 11, hour);
    lemma_two_digits_at(text, 14, minute);
    lemma_two_digits_at(text, 17, second);
    lemma_two_digits_at(text, 21, offset_hour);
    lemma_two_digits_at(text, 23, offset_minute);
    assert forall|i: int| 0 <= i < text.len() implies #[trigger] text[i] != '+' by {
        if i != 4 && i != 7 && i != 10 && i != 13 && i != 16 && i != 19 && i != 20 {
            assert(is_digit(text[i]));
        }
    }
}

/// The text of a time spells its own fields, with an offset of zero.
pub proof fn lemma_time_text_reads_back(
    year: int,
    month: int,
    day: int,
    hour: int,
    minute: int,
    second: int,
)
    requires
        0 <= year < 10000,
        0 <= month < 100,
        0 <= day < 100,
        0 <= hour < 100,
        0 <= minute < 100,
        0 <= second < 100,
    ensures
        is_time_text(time_text(year, month, day, hour, minute, second)),
        number_at(time_text(year, month, day, hour, minute, second), 0, 4) == year,
        number_at(time_text(year, month, day, hour, minute, second), 5, 2) == month,
        number_at(time_text(year, month, day, hour, minute, second), 8, 2) == day,
        number_at(time_text(year, month, day, hour, minute, second), 11, 2) == hour,
        number_at(time_text(year, month, day, hour, minute, second), 14, 2) == minute,
        number_at(time_text(year, month, day, hour, minute, second), 17, 2) == second,
        number_at(time_text(year, month, day, hour, minute, second), 21, 2) == 0,
        number_at(time_text(year, month, day, hour, minute, second), 23, 2) == 0,
        time_text(year, month, day, hour, minute, second)[20] == '_',
{
    lemma_offset_time_text_reads_back(year, month, day, hour, minute, second, false, 0, 0);
}

/// The text of an instant as local time at an offset, which names that
/// instant to the second and holds no plus sign. `None` where the instant
/// cannot be written at that offset.
pub fn time_text_chars_at(dt: Timestamp, offset: UtcOffset) -> (res: Option<Vec<char>>)
    ensures
        res.is_some() == writable_at(dt, offset),
        res matches Some(out) ==> out@ == time_text_at(dt, offset.east_minutes as int)
            && time_text_secs(out@) == Some(dt.epoch_secs()) && (forall|i: int|
            0 <= i < out@.len() ==> #[trigger] out@[i] != '+'),
{
    if offset.east_minutes <= -1440 || offset.east_minutes >= 1440 {
        return None;
    }
    let secs: i64 = dt.timestamp();
    let shift: i64 = offset.east_minutes as i64 * 60;
    let local: Timestamp = match Timestamp::new(secs + shift, 0) {
        Some(t) => t,
        None => {
            return None;
        },
    };
    let west: bool = offset.east_minutes < 0;
    let distance: u32 = if west {
        (-offset.east_minutes) as u32
    } else {
        offset.east_minutes as u32
    };
    let offset_hour: u32 = distance / 60;
    let offset_minute: u32 = distance % 60;
    let year: i32 = local.year();
    let month: u32 = local.month();
    let day: u32 = local.day();
    let hour: u32 = local.hour();
    let minute: u32 = local.minute();
    let second: u32 = local.second();
    let mut out: Vec<char> = Vec::new();
    push_four_digits(&mut out, year as u32);
    out.push('-');
    push_two_digits(&mut out, month);
    out.push('-');
    push_two_digits(&mut out, day);
    out.push('T');
    push_two_digits(&mut out, hour);
    out.push('h');
    push_two_digits(&mut out, minute);
    out.push('m');
    push_two_digits(&mut out, second);
    out.push('s');
    if west {
        out.push('-');
    } else {
        out.push('_');
    }
    push_two_digits(&mut out, offset_hour);
    push_two_digits(&mut out, offset_minute);
    proof {
        assert(local.epoch_secs() == dt.epoch_secs() + offset.east_minutes * 60);
        assert(out@ =~= time_text_at(dt, offset.east_minutes as int));
        lemma_offset_time_text_reads_back(
            year as int,
            month as int,
            day as int,
            hour as int,
            minute as int,
            second as int,
            west,
            offset_hour as int,
            offset_minute as int,
        );
        let sod = local.spec_second_of_day();
        assert(hour * 3600 + minute * 60 + second == sod);
        assert(local.spec_day_number() * 86_400 + sod == local.epoch_secs());
        assert(offset_hour * 3600 + offset_minute * 60 == distance * 60);
    }
    Some(out)
}

/// The text of an instant, which names that instant to the second.
pub fn time_text_chars(dt: Timestamp) -> (out: Vec<char>)
    ensures
        out@ == time_text_of(dt),
        time_text_secs(out@) == Some(dt.epoch_secs()),
{
    let year: i32 = dt.year();
    let month: u32 = dt.month();
    let day: u32 = dt.day();
    let hour: u32 = dt.hour();
    let minute: u32 = dt.minute();
    let second: u32 = dt.second();
    let secs: i64 = dt.timestamp();
    let mut out: Vec<char> = Vec::new();
    push_four_digits(&mut out, year as u32);
    out.push('-');
    push_two_digits(&mut out, month);
    out.push('-');
    push_two_digits(&mut out, day);
    out.push('T');
    push_two_digits(&mut out, hour);
    out.push('h');
    push_two_digits(&mut out, minute);
    out.push('m');
    push_two_digits(&mut out, second);
    out.push('s');
    out.push('_');
    out.push('0');
    out.push('0');
    out.push('0');
    out.push('0');
    proof {
        assert(out@ =~= time_text_of(dt));
        lemma_time_text_reads_back(
            year as int,
            month as int,
            day as int,
            hour as int,
            minute as int,
            second as int,
        );
        let sod = dt.spec_second_of_day();
        assert(hour * 3600 + minute * 60 + second == sod);
        assert(dt.spec_day_number() * 86_400 + sod == secs);
    }
    out
}

/// The instant that `text` names, if it names one.
pub fn parse_time_text(text: &Vec<char>) -> (res: Option<Timestamp>)
    ensures
        res.is_some() == time_text_secs(text@).is_some(),
        res matches Some(t) ==> t.epoch_secs() == time_text_secs(text@).unwrap() && t.subsec() == 0,
{
    if text.len() != TIME_TEXT_LEN {
        return None;
    }
    if text[4] != '-' || text[7] != '-' || text[10] != 'T' || text[13] != 'h' || text[16] != 'm'
        || text[19] != 's' {
        return None;
    }
    let sign: char = text[20];
    if sign != '_' && sign != '-' {
        return None;
    }
    let year: u32 = match read_number(text, 0, 4) {
        Some(n) => n,
        None => { return None; },
    };
    let month: u32 = match read_number(text, 5, 2) {
        Some(n) => n,
        None => { return None; },
    };
    let day: u32 = match read_number(text, 8, 2) {
        Some(n) => n,
        None => { return None; },
    };
    let hour: u32 = match read_number(text, 11, 2) {
        Some(n) => n,
        None => { return None; },
    };
    let minute: u32 = match read_number(text, 14, 2) {
        Some(n) => n,
        None => { return None; },
    };
    let second: u32 = match read_number(text, 17, 2) {
        Some(n) => n,
        None => { return None; },
    };
    let offset_hour: u32 = match read_number(text, 21, 2) {
        Some(n) => n,
        None => { return None; },
    };
    let offset_minute: u32 = match read_number(text, 23, 2) {
        Some(n) => n,
        None => { return None; },
    };
    assert(is_time_text(text@));
    if hour >= 24 || minute >= 60 || second >= 60 || offset_hour >= 24 || offset_minute >= 60 {
        return None;
    }
    let date: i32 = match day_number_of_date(year as i32, month, day) {
        Some(n) => n,
        None => { return None; },
    };
    let local: i64 = date as i64 * 86_400 + (hour * 3600 + minute * 60 + second) as i64;
    let offset: i64 = (offset_hour * 3600 + offset_minute * 60) as i64;
    let secs: i64 = if sign == '_' {
        local - offset
    } else {
        local + offset
    };
    Timestamp::new(secs, 0)
}

impl BackupConfig {
    /// The extensions of an archive: `tar`, then `.xz` and `.age` as
    /// configured.
    pub open spec fn ext_chain(self) -> Seq<char> {
        seq!['t', 'a', 'r'] + (match self.compressor.ext() {
            Some(e) => seq!['.'] + e,
            None => Seq::empty(),
        }) + (match self.encryptor.ext() {
            Some(e) => seq!['.'] + e,
            None => Seq::empty(),
        })
    }

    /// What every name of an archive begins with: the base name and a dot.
    pub open spec fn name_head(self) -> Seq<char> {
        self.archive_base_name@ + seq!['.']
    }

    /// What every name of an archive ends with: a dot and the extensions.
    pub open spec fn name_tail(self) -> Seq<char> {
        seq!['.'] + self.ext_chain()
    }

    /// The name of the archive made at `dt`.
    pub open spec fn archive_name(self, dt: Timestamp) -> Seq<char> {
        self.name_head() + time_text_of(dt) + self.name_tail()
    }

    /// The instant that the name of a file stands for, in seconds since
    /// 1970-01-01T00:00:00Z: the name begins with the base name and a dot,
    /// ends with a dot and the extensions, and what lies between names an
    /// instant. `None` for any other name.
    pub open spec fn name_secs(self, name: Seq<char>) -> Option<int> {
        if starts_with(name, self.name_head()) && ends_with(name, self.name_tail())
            && self.name_head().len() + self.name_tail().len() <= name.len() {
            time_text_secs(
                name.subrange(self.name_head().len() as int, name.len() - self.name_tail().len()),
            )
        } else {
            None
        }
    }

    /// The characters of the extensions.
    pub fn ext_chain_chars(&self) -> (out: Vec<char>)
        ensures
            out@ == self.ext_chain(),
    {
        let mut out: Vec<char> = Vec::new();
        out.push('t');
        out.push('a');
        out.push('r');
        assert(out@ =~= seq!['t', 'a', 'r']);
        match self.compressor.ext_chars() {
            Some(e) => {
                let ghost before = out@;
                out.push('.');
                push_all(&mut out, &e);
                assert(out@ =~= before + (seq!['.'] + e@));
            },
            None => {
                assert(out@ =~= out@ + Seq::<char>::empty());
            },
        }
        match self.encryptor.ext_chars() {
            Some(e) => {
                let ghost before = out@;
                out.push('.');
                push_all(&mut out, &e);
                assert(out@ =~= before + (seq!['.'] + e@));
            },
            None => {
                assert(out@ =~= out@ + Seq::<char>::empty());
            },
        }
        out
    }

    /// The characters that every name of an archive begins with.
    pub fn name_head_chars(&self) -> (out: Vec<char>)
        ensures
            out@ == self.name_head(),
    {
        let mut out: Vec<char> = chars_of(self.archive_base_name.as_str());
        out.push('.');
        out
    }

    /// The characters that every name of an archive ends with.
    pub fn name_tail_chars(&self) -> (out: Vec<char>)
        ensures
            out@ == self.name_tail(),
    {
        let mut out: Vec<char> = Vec::new();
        out.push('.');
        assert(out@ =~= seq!['.']);
        let ext: Vec<char> = self.ext_chain_chars();
        push_all(&mut out, &ext);
        out
    }

    /// The time of an archive and its extensions, as they follow the base
    /// name and its dot.
    pub fn time_file_ext(&self, dt: Timestamp) -> (out: String)
        ensures
            out@ == time_text_of(dt) + self.name_tail(),
    {
        let mut chars: Vec<char> = time_text_chars(dt);
        let tail: Vec<char> = self.name_tail_chars();
        push_all(&mut chars, &tail);
        string_of(&chars)
    }

    /// The name of the archive made at `dt`. Read back as a name, it stands
    /// for `dt` to the second.
    pub fn archive_file_name(&self, dt: Timestamp) -> (out: String)
        ensures
            out@ == self.archive_name(dt),
            self.name_secs(out@) == Some(dt.epoch_secs()),
    {
        let mut chars: Vec<char> = self.name_head_chars();
        let time: Vec<char> = time_text_chars(dt);
        let tail: Vec<char> = self.name_tail_chars();
        push_all(&mut chars, &time);
        push_all(&mut chars, &tail);
        proof {
            let name = chars@;
            let head = self.name_head();
            let end = self.name_tail();
            assert(name =~= head + time@ + end);
            assert(name.subrange(0, head.len() as int) =~= head);
            assert(name.subrange(name.len() - end.len(), name.len() as int) =~= end);
            assert(name.subrange(head.len() as int, name.len() - end.len()) =~= time@);
        }
        string_of(&chars)
    }

    /// The name of the archive made at `dt`, written as local time at an
    /// offset from UTC.
    pub open spec fn archive_name_at(self, dt: Timestamp, east_minutes: int) -> Seq<char> {
        self.name_head() + time_text_at(dt, east_minutes) + self.name_tail()
    }

    /// The time of an archive, written as local time at an offset from UTC,
    /// and its extensions, as they follow the base name and its dot. `None`
    /// where the instant cannot be written at that offset.
    pub fn time_file_ext_at(&self, dt: Timestamp, offset: UtcOffset) -> (res: Option<String>)
        ensures
            res.is_some() == writable_at(dt, offset),
            res matches Some(out) ==> out@ == time_text_at(dt, offset.east_minutes as int)
                + self.name_tail(),
    {
        match time_text_chars_at(dt, offset) {
            None => None,
            Some(time) => {
                let mut chars: Vec<char> = time;
                let tail: Vec<char> = self.name_tail_chars();
                push_all(&mut chars, &tail);
                Some(string_of(&chars))
            },
        }
    }

    /// The name of the archive made at `dt`, written as local time at an
    /// offset from UTC. Read back as a name, it stands for `dt` to the
    /// second, whatever the offset. `None` where the instant cannot be
    /// written at that offset.
    pub fn archive_file_name_at(&self, dt: Timestamp, offset: UtcOffset) -> (res: Option<String>)
        ensures
            res.is_some() == writable_at(dt, offset),
            res matches Some(out) ==> out@ == self.archive_name_at(
                dt,
                offset.east_minutes as int,
            ) && self.name_secs(out@) == Some(dt.epoch_secs()),
    {
        match time_text_chars_at(dt, offset) {
            None => None,
            Some(time) => {
                let mut chars: Vec<char> = self.name_head_chars();
                let tail: Vec<char> = self.name_tail_chars();
                push_all(&mut chars, &time);
                push_all(&mut chars, &tail);
                proof {
                    let name = chars@;
                    let head = self.name_head();
                    let end = self.name_tail();
                    assert(name =~= head + time@ + end);
                    assert(name.subrange(0, head.len() as int) =~= head);
                    assert(name.subrange(name.len() - end.len(), name.len() as int) =~= end);
                    assert(name.subrange(head.len() as int, name.len() - end.len()) =~= time@);
                }
                Some(string_of(&chars))
            },
        }
    }

    /// The instant that the name of a file stands for; `None` for a name
    /// that is not the name of an archive of this configuration.
    pub fn get_date_time_from_file_name(&self, file_name: &str) -> (res: Option<Timestamp>)
        ensures
            res.is_some() == self.name_secs(file_name@).is_some(),
            res matches Some(t) ==> t.epoch_secs() == self.name_secs(file_name@).unwrap()
                && t.subsec() == 0,
    {
        let name: Vec<char> = chars_of(file_name);
        let head: Vec<char> = self.name_head_chars();
        let tail: Vec<char> = self.name_tail_chars();
        if tail.len() > name.len() || head.len() > name.len() - tail.len() {
            assert(!(starts_with(name@, head@) && ends_with(name@, tail@) && head@.len()
                + tail@.len() <= name@.len()));
            return None;
        }
        let tail_start: usize = name.len() - tail.len();
        if !has_at(&name, tail_start, &tail) {
            return None;
        }
        if !has_at(&name, 0, &head) {
            return None;
        }
        let mut middle: Vec<char> = Vec::new();
        let mut i: usize = head.len();
        while i < tail_start
            invariant
                head@.len() <= i <= tail_start <= name@.len(),
                middle@ == name@.subrange(head@.len() as int, i as int),
            decreases tail_start - i,
        {
            middle.push(name[i]);
            assert(middle@ =~= name@.subrange(head@.len() as int, i + 1));
            i += 1;
        }
        parse_time_text(&middle)
    }
}

/// The file name of a path: its last part, as `Path::file_name` reads
/// paths on the platform the library is built for; `None` for a path that
/// has no file name.
pub uninterp spec fn path_file_name(path: Seq<char>) -> Option<Seq<char>>;

/// `Path::file_name`, with the result as text. Not proved: that the result
/// is the one named `path_file_name`.
#[verifier::external_body]
pub(crate) fn file_name_of(path: &str) -> (name: Option<String>)
    ensures
        name.is_some() == path_file_name(path@).is_some(),
        name matches Some(n) ==> path_file_name(path@) == Some(n@),
{
    match std::path::Path::new(path).file_name() {
        Some(name) => match name.to_str() {
            Some(text) => Some(text.to_owned()),
            None => None,
        },
        None => None,
    }
}

impl BackupConfig {
    /// The instant that the file name of a path stands for: the file name
    /// begins with the base name and a dot, ends with a dot and the
    /// extensions, and what lies between names an instant. `None` for a
    /// path without a file name and for a file name that is not the name
    /// of an archive of this configuration.
    pub fn get_date_time_from_file_path(&self, file_path: &str) -> (res: Option<Timestamp>)
        ensures
            match path_file_name(file_path@) {
                None => res.is_none(),
                Some(name) => res.is_some() == self.name_secs(name).is_some() && (res matches Some(
                    t,
                ) ==> t.epoch_secs() == self.name_secs(name).unwrap() && t.subsec() == 0),
            },
    {
        match file_name_of(file_path) {
            None => None,
            Some(name) => self.get_date_time_from_file_name(name.as_str()),
        }
    }
}

impl FileExtProvider for BackupConfig {
    /// The extensions of an archive, with dots between them.
    fn file_ext(&self) -> (res: Option<String>)
        ensures
            res matches Some(s) && s@ == self.ext_chain(),
    {
        let chars: Vec<char> = self.ext_chain_chars();
        Some(string_of(&chars))
    }
}

} // verus!
