//! The timestamp of the inbound message, held as plain calendar fields, and
//! its RFC 822 rendering for the quotation header.

use vstd::prelude::*;

verus! {

/// A calendar timestamp with its zone offset, as the message parser reports
/// it.
#[derive(Clone, Copy, Debug, PartialEq, Eq, Structural)]
pub struct DateStamp {
    pub year: u16,
    pub month: u8,
    pub day: u8,
    pub hour: u8,
    pub minute: u8,
    pub second: u8,
    pub tz_before_gmt: bool,
    pub tz_hour: u8,
    pub tz_minute: u8,
}

/// The RFC 822 rendering of a timestamp, as the date formatter of the parsing
/// library writes it; a function of the calendar fields alone.
pub uninterp spec fn rfc822_of(
    year: int,
    month: int,
    day: int,
    hour: int,
    minute: int,
    second: int,
    tz_before_gmt: bool,
    tz_hour: int,
    tz_minute: int,
) -> Seq<char>;

/// The RFC 822 rendering of a `DateStamp`.
pub open spec fn date_str_of(d: DateStamp) -> Seq<char> {
    rfc822_of(
        d.year as int,
        d.month as int,
        d.day as int,
        d.hour as int,
        d.minute as int,
        d.second as int,
        d.tz_before_gmt,
        d.tz_hour as int,
        d.tz_minute as int,
    )
}

/// Relies on `mail_parser::DateTime::to_rfc822`, whose rendering is a
/// function of the calendar fields alone.
#[verifier::external_body]
pub(crate) fn rfc822_format(d: &DateStamp) -> (r: String)
    ensures
        r@ == rfc822_of(
            d.year as int,
            d.month as int,
            d.day as int,
            d.hour as int,
            d.minute as int,
            d.second as int,
            d.tz_before_gmt,
            d.tz_hour as int,
            d.tz_minute as int,
        ),
{
    mail_parser::DateTime {
        year: d.year,
        month: d.month,
        day: d.day,
        hour: d.hour,
        minute: d.minute,
        second: d.second,
        tz_before_gmt: d.tz_before_gmt,
        tz_hour: d.tz_hour,
        tz_minute: d.tz_minute,
    }.to_rfc822()
}

} // verus!
