//! The lines of the log.

use crate::text;
use vstd::prelude::*;

verus! {

/// How the time of a line is written.
pub const TIMESTAMP_FORMAT: &'static str = "%Y-%m-%d %H:%M:%S%.6f";

/// A line and where it goes.
pub struct LogLine {
    pub text: String,
    pub to_stderr: bool,
}

/// The text of a line.
pub open spec fn line_text(timestamp: Seq<char>, level: Seq<char>, message: Seq<char>) -> Seq<
    char,
> {
    timestamp + " - __main__ - "@ + level + " - "@ + message
}

/// Puts a line together.
pub fn render_line(timestamp: &str, level: &str, message: &str) -> (r: String)
    ensures
        r@ == line_text(timestamp@, level@, message@),
{
    let mut line = String::from_str(timestamp);
    line.append(" - __main__ - ");
    line.append(level);
    line.append(" - ");
    line.append(message);
    line
}

/// The character that stands so far behind the year in a time that is no digit.
pub open spec fn separator(i: int) -> Option<char> {
    if i == 0 || i == 3 {
        Some('-')
    } else if i == 6 {
        Some(' ')
    } else if i == 9 || i == 12 {
        Some(':')
    } else if i == 15 {
        Some('.')
    } else {
        None
    }
}

/// Whether a text has the form of a time: the year in four digits, or with a sign and more, then
/// month, day, hour, minute and second in two digits each and the microseconds in six.
pub open spec fn is_timestamp(s: Seq<char>) -> bool {
    let year = s.len() - 22;
    &&& year >= 4
    &&& if year == 4 {
        text::is_digit(s[0])
    } else {
        s[0] == '+' || s[0] == '-'
    }
    &&& forall|i: int|
        #![trigger s[i]]
        1 <= i < s.len() ==> match separator(i - year) {
            Some(c) => s[i] == c,
            None => text::is_digit(s[i]),
        }
}

/// The local time, by `chrono::DateTime::<Local>::from` of `SystemTime::now` and
/// `DateTime::format`. Trusted: the text has the form that the format asks for. Which time it
/// writes is not said: that is the machine's clock and time zone. Other formats may make `chrono`
/// panic. So does a clock beyond the years that `chrono` can hold, some 262,000 either way, and
/// time-zone data of the machine that give no offset of less than a day; no argument decides
/// that.
#[verifier::external_body]
fn local_time(format: &str) -> (r: String)
    requires
        format@ == TIMESTAMP_FORMAT@,
    ensures
        is_timestamp(r@),
{
    chrono::DateTime::<chrono::Local>::from(std::time::SystemTime::now()).format(format).to_string()
}

/// Makes a line of the present time.
pub fn log_line(level: &str, message: &str, to_stderr: bool) -> (r: LogLine)
    ensures
        r.to_stderr == to_stderr,
        exists|timestamp: Seq<char>|
            is_timestamp(timestamp) && r.text@ == #[trigger] line_text(
                timestamp,
                level@,
                message@,
            ),
{
    let timestamp = local_time(TIMESTAMP_FORMAT);
    LogLine { text: render_line(timestamp.as_str(), level, message), to_stderr }
}

/// Makes a line for the standard output.
pub fn info(message: &str) -> (r: LogLine)
    ensures
        !r.to_stderr,
        exists|timestamp: Seq<char>|
            is_timestamp(timestamp) && r.text@ == #[trigger] line_text(
                timestamp,
                "INFO"@,
                message@,
            ),
{
    log_line("INFO", message, false)
}

/// Makes a line for the standard error output.
pub fn error(message: &str) -> (r: LogLine)
    ensures
        r.to_stderr,
        exists|timestamp: Seq<char>|
            is_timestamp(timestamp) && r.text@ == #[trigger] line_text(
                timestamp,
                "ERROR"@,
                message@,
            ),
{
    log_line("ERROR", message, true)
}

/// A line begins with its time, ends with the whole message, and has its level between.
pub proof fn law_line_holds_its_parts(timestamp: Seq<char>, level: Seq<char>, message: Seq<char>)
    ensures
        ({
            let line = line_text(timestamp, level, message);
            let at = timestamp.len() as int + 14;
            &&& line.len() == at + level.len() + 3 + message.len()
            &&& line.take(timestamp.len() as int) == timestamp
            &&& line.subrange(timestamp.len() as int, at) == " - __main__ - "@
            &&& line.subrange(at, at + level.len()) == level
            &&& line.subrange(at + level.len(), at + level.len() + 3) == " - "@
            &&& line.skip(at + level.len() + 3) == message
        }),
{
    reveal_strlit(" - __main__ - ");
    reveal_strlit(" - ");
    let line = line_text(timestamp, level, message);
    let at = timestamp.len() as int + 14;
    assert(line.take(timestamp.len() as int) =~= timestamp);
    assert(line.subrange(timestamp.len() as int, at) =~= " - __main__ - "@);
    assert(line.subrange(at, at + level.len()) =~= level);
    assert(line.subrange(at + level.len(), at + level.len() + 3) =~= " - "@);
    assert(line.skip(at + level.len() + 3) =~= message);
}

} // verus!
