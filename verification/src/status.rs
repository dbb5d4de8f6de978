//! The line that a sender or a receiver keeps on the screen while it is connected.

use crate::text::decimal_text;
use vstd::prelude::*;
use vstd::string::StringExecFns;

verus! {

/// How fast data flows.
pub enum BitRate {
    /// Next to nothing is sent: there is only silence.
    Silent,
    /// The number of kilobits in a second, as text.
    Kbps(String),
}

impl BitRate {
    /// The rate in words.
    pub open spec fn words(self) -> Seq<char> {
        match self {
            BitRate::Silent => "1 kbps, silence detected"@,
            BitRate::Kbps(kbps) => kbps@ + " kbps"@,
        }
    }
}

/// The rate to show for a message: that of silence for one that is silent, else the number of
/// kilobits in a second that was measured.
pub fn bit_rate(fully_silent: bool, kbps: String) -> (rate: BitRate)
    ensures
        fully_silent ==> rate == BitRate::Silent,
        !fully_silent ==> rate == BitRate::Kbps(kbps),
{
    if fully_silent {
        BitRate::Silent
    } else {
        BitRate::Kbps(kbps)
    }
}

/// The start of a line: the cursor's line is cleared, and the state stands in blue.
pub open spec fn connected_mark() -> Seq<char> {
    "\x1B[K[\x1B[34mCONNECTED\x1B[0m] "@
}

/// The audio parameters and the rate.
pub open spec fn parameters(sample_rate: u32, buffer_size: u32, rate: BitRate) -> Seq<char> {
    crate::text::decimal(sample_rate as nat) + " Hz, "@ + crate::text::decimal(buffer_size as nat)
        + " samples/buffer, "@ + rate.words()
}

/// The line of a sender.
pub open spec fn sender_line(sample_rate: u32, buffer_size: u32, rate: BitRate) -> Seq<char> {
    connected_mark() + "Sender | "@ + parameters(sample_rate, buffer_size, rate) + "\r"@
}

/// The line of a receiver.
pub open spec fn receiver_line(
    addr: Seq<char>,
    latency: Seq<char>,
    sample_rate: u32,
    buffer_size: u32,
    rate: BitRate,
) -> Seq<char> {
    connected_mark() + "Receiving from "@ + addr + ", "@ + latency + "ms network latency | "@
        + parameters(sample_rate, buffer_size, rate) + "\r"@
}

fn append_parameters(line: &mut String, sample_rate: u32, buffer_size: u32, rate: &BitRate)
    ensures
        final(line)@ == old(line)@ + parameters(sample_rate, buffer_size, *rate),
{
    line.append(decimal_text(sample_rate).as_str());
    line.append(" Hz, ");
    line.append(decimal_text(buffer_size).as_str());
    line.append(" samples/buffer, ");
    match rate {
        BitRate::Silent => {
            line.append("1 kbps, silence detected");
        },
        BitRate::Kbps(kbps) => {
            line.append(kbps.as_str());
            line.append(" kbps");
        },
    }
    assert(line@ =~= old(line)@ + parameters(sample_rate, buffer_size, *rate));
}

/// The line of a sender. It ends with a carriage return, so that the next one takes its place.
pub fn sender_status(sample_rate: u32, buffer_size: u32, rate: &BitRate) -> (line: String)
    ensures
        line@ == sender_line(sample_rate, buffer_size, *rate),
        line@ == "\x1B[K[\x1B[34mCONNECTED\x1B[0m] "@ + "Sender | "@ + crate::text::decimal(
            sample_rate as nat,
        ) + " Hz, "@ + crate::text::decimal(buffer_size as nat) + " samples/buffer, "@
            + match rate {
            BitRate::Silent => "1 kbps, silence detected"@,
            BitRate::Kbps(kbps) => kbps@ + " kbps"@,
        } + "\r"@,
{
    let mut line = "\x1B[K[\x1B[34mCONNECTED\x1B[0m] ".to_owned();
    line.append("Sender | ");
    append_parameters(&mut line, sample_rate, buffer_size, rate);
    line.append("\r");
    line
}

/// The line of a receiver, with the address that it receives from and the latency in milliseconds.
pub fn receiver_status(
    addr: &str,
    latency: &str,
    sample_rate: u32,
    buffer_size: u32,
    rate: &BitRate,
) -> (line: String)
    ensures
        line@ == receiver_line(addr@, latency@, sample_rate, buffer_size, *rate),
        line@ == "\x1B[K[\x1B[34mCONNECTED\x1B[0m] "@ + "Receiving from "@ + addr@ + ", "@
            + latency@ + "ms network latency | "@ + crate::text::decimal(sample_rate as nat)
            + " Hz, "@ + crate::text::decimal(buffer_size as nat) + " samples/buffer, "@
            + match rate {
            BitRate::Silent => "1 kbps, silence detected"@,
            BitRate::Kbps(kbps) => kbps@ + " kbps"@,
        } + "\r"@,
{
    let mut line = "\x1B[K[\x1B[34mCONNECTED\x1B[0m] ".to_owned();
    line.append("Receiving from ");
    line.append(addr);
    line.append(", ");
    line.append(latency);
    line.append("ms network latency | ");
    append_parameters(&mut line, sample_rate, buffer_size, rate);
    line.append("\r");
    line
}

} // verus!
