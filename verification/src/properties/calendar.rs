//! Calendar properties (RFC 5545 §3.7): the ones that describe a
//! `VCALENDAR` as a whole.

use vstd::prelude::*;
use vstd::string::StringSliceAdditionalSpecFns;
use crate::bytes::{append_str, first_unquoted, param_pieces, COLON};
use crate::properties::{lemma_line_valid, split_remainder, ParseError, SharedParams};
use crate::values::{Ical, Text};

verus! {

/// The calendar scale used for the calendar information (RFC 5545
/// §3.7.1); the default is `GREGORIAN`.
#[derive(Debug)]
pub struct CalendarScale {
    value: Text,
    params: SharedParams,
}

impl CalendarScale {
    /// The property's value.
    pub closed spec fn spec_value(&self) -> Text {
        self.value
    }

    /// The property's parameters.
    pub closed spec fn spec_params(&self) -> SharedParams {
        self.params
    }

    /// Whether the rest of a content line, after the name, parses.
    pub open spec fn parses(v: Seq<u8>) -> bool {
        match first_unquoted(v, COLON) {
            Some(k) => SharedParams::parses(param_pieces(v.take(k))) && Text::parses(v.skip(k + 1)),
            None => false,
        }
    }

    /// Whether this property is what the rest of a content line parses to.
    pub open spec fn describes(&self, v: Seq<u8>) -> bool {
        match first_unquoted(v, COLON) {
            Some(k) => self.spec_params().describes(param_pieces(v.take(k))) && Text::accepts(
                v.skip(k + 1),
                self.spec_value(),
            ),
            None => false,
        }
    }

    /// Parses the rest of a content line, after the name: the parameters,
    /// `:`, the value.
    pub fn try_from(v: &[u8]) -> (r: Result<CalendarScale, ParseError>)
        ensures
            r is Ok <==> CalendarScale::parses(v@),
            r matches Ok(p) ==> p.describes(v@),
            first_unquoted(v@, COLON) is None ==> r matches Err(ParseError::Parameter { .. }),
    {
        let (head, tail) = split_remainder(v)?;
        let params = match SharedParams::parse(head.as_slice()) {
            Ok(p) => p,
            Err(e) => {
                return Err(ParseError::Parameters(e));
            },
        };
        let value = match Text::try_from(tail.as_slice()) {
            Ok(x) => x,
            Err(e) => {
                return Err(ParseError::Value(e));
            },
        };
        Ok(CalendarScale { value, params })
    }

    /// The property with no parameters.
    pub fn new(value: Text) -> (r: CalendarScale)
        ensures
            r.spec_value() == value,
            r.spec_params().iana_bytes() == Seq::<Seq<u8>>::empty(),
            r.spec_params().xname_bytes() == Seq::<Seq<u8>>::empty(),
    {
        CalendarScale { value, params: SharedParams::new() }
    }

    /// The property's value.
    pub fn value(&self) -> (r: &Text)
        ensures
            *r == self.spec_value(),
    {
        &self.value
    }

    /// The property's parameters.
    pub fn params(&self) -> (r: &SharedParams)
        ensures
            *r == self.spec_params(),
    {
        &self.params
    }
}

impl Ical for CalendarScale {
    /// The content line: `CALSCALE`, the parameters, `:`, the value.
    open spec fn ical(&self) -> Seq<u8> {
        "CALSCALE".spec_bytes() + self.spec_params().ical() + seq![COLON] + self.spec_value().ical()
    }

    proof fn lemma_ical_valid(&self) {
        self.spec_params().lemma_ical_valid();
        self.spec_value().lemma_ical_valid();
        lemma_line_valid("CALSCALE", self.spec_params().ical(), self.spec_value().ical());
    }

    fn write_to(&self, out: &mut Vec<u8>) {
        append_str(out, "CALSCALE");
        self.params.write_to(out);
        out.push(COLON);
        self.value.write_to(out);
        assert(out@ =~= old(out)@ + self.ical());
    }
}
/// The iCalendar object method associated with the calendar object (RFC
/// 5545 §3.7.2).
#[derive(Debug)]
pub struct Method {
    value: Text,
    params: SharedParams,
}

impl Method {
    /// The property's value.
    pub closed spec fn spec_value(&self) -> Text {
        self.value
    }

    /// The property's parameters.
    pub closed spec fn spec_params(&self) -> SharedParams {
        self.params
    }

    /// Whether the rest of a content line, after the name, parses.
    pub open spec fn parses(v: Seq<u8>) -> bool {
        match first_unquoted(v, COLON) {
            Some(k) => SharedParams::parses(param_pieces(v.take(k))) && Text::parses(v.skip(k + 1)),
            None => false,
        }
    }

    /// Whether this property is what the rest of a content line parses to.
    pub open spec fn describes(&self, v: Seq<u8>) -> bool {
        match first_unquoted(v, COLON) {
            Some(k) => self.spec_params().describes(param_pieces(v.take(k))) && Text::accepts(
                v.skip(k + 1),
                self.spec_value(),
            ),
            None => false,
        }
    }

    /// Parses the rest of a content line, after the name: the parameters,
    /// `:`, the value.
    pub fn try_from(v: &[u8]) -> (r: Result<Method, ParseError>)
        ensures
            r is Ok <==> Method::parses(v@),
            r matches Ok(p) ==> p.describes(v@),
            first_unquoted(v@, COLON) is None ==> r matches Err(ParseError::Parameter { .. }),
    {
        let (head, tail) = split_remainder(v)?;
        let params = match SharedParams::parse(head.as_slice()) {
            Ok(p) => p,
            Err(e) => {
                return Err(ParseError::Parameters(e));
            },
        };
        let value = match Text::try_from(tail.as_slice()) {
            Ok(x) => x,
            Err(e) => {
                return Err(ParseError::Value(e));
            },
        };
        Ok(Method { value, params })
    }

    /// The property with no parameters.
    pub fn new(value: Text) -> (r: Method)
        ensures
            r.spec_value() == value,
            r.spec_params().iana_bytes() == Seq::<Seq<u8>>::empty(),
            r.spec_params().xname_bytes() == Seq::<Seq<u8>>::empty(),
    {
        Method { value, params: SharedParams::new() }
    }

    /// The property's value.
    pub fn value(&self) -> (r: &Text)
        ensures
            *r == self.spec_value(),
    {
        &self.value
    }

    /// The property's parameters.
    pub fn params(&self) -> (r: &SharedParams)
        ensures
            *r == self.spec_params(),
    {
        &self.params
    }
}

impl Ical for Method {
    /// The content line: `METHOD`, the parameters, `:`, the value.
    open spec fn ical(&self) -> Seq<u8> {
        "METHOD".spec_bytes() + self.spec_params().ical() + seq![COLON] + self.spec_value().ical()
    }

    proof fn lemma_ical_valid(&self) {
        self.spec_params().lemma_ical_valid();
        self.spec_value().lemma_ical_valid();
        lemma_line_valid("METHOD", self.spec_params().ical(), self.spec_value().ical());
    }

    fn write_to(&self, out: &mut Vec<u8>) {
        append_str(out, "METHOD");
        self.params.write_to(out);
        out.push(COLON);
        self.value.write_to(out);
        assert(out@ =~= old(out)@ + self.ical());
    }
}
/// The identifier of the product that created the iCalendar object (RFC
/// 5545 §3.7.3).
#[derive(Debug)]
pub struct ProductIdentifier {
    value: Text,
    params: SharedParams,
}

impl ProductIdentifier {
    /// The property's value.
    pub closed spec fn spec_value(&self) -> Text {
        self.value
    }

    /// The property's parameters.
    pub closed spec fn spec_params(&self) -> SharedParams {
        self.params
    }

    /// Whether the rest of a content line, after the name, parses.
    pub open spec fn parses(v: Seq<u8>) -> bool {
        match first_unquoted(v, COLON) {
            Some(k) => SharedParams::parses(param_pieces(v.take(k))) && Text::parses(v.skip(k + 1)),
            None => false,
        }
    }

    /// Whether this property is what the rest of a content line parses to.
    pub open spec fn describes(&self, v: Seq<u8>) -> bool {
        match first_unquoted(v, COLON) {
            Some(k) => self.spec_params().describes(param_pieces(v.take(k))) && Text::accepts(
                v.skip(k + 1),
                self.spec_value(),
            ),
            None => false,
        }
    }

    /// Parses the rest of a content line, after the name: the parameters,
    /// `:`, the value.
    pub fn try_from(v: &[u8]) -> (r: Result<ProductIdentifier, ParseError>)
        ensures
            r is Ok <==> ProductIdentifier::parses(v@),
            r matches Ok(p) ==> p.describes(v@),
            first_unquoted(v@, COLON) is None ==> r matches Err(ParseError::Parameter { .. }),
    {
        let (head, tail) = split_remainder(v)?;
        let params = match SharedParams::parse(head.as_slice()) {
            Ok(p) => p,
            Err(e) => {
                return Err(ParseError::Parameters(e));
            },
        };
        let value = match Text::try_from(tail.as_slice()) {
            Ok(x) => x,
            Err(e) => {
                return Err(ParseError::Value(e));
            },
        };
        Ok(ProductIdentifier { value, params })
    }

    /// The property with no parameters.
    pub fn new(value: Text) -> (r: ProductIdentifier)
        ensures
            r.spec_value() == value,
            r.spec_params().iana_bytes() == Seq::<Seq<u8>>::empty(),
            r.spec_params().xname_bytes() == Seq::<Seq<u8>>::empty(),
    {
        ProductIdentifier { value, params: SharedParams::new() }
    }

    /// The property's value.
    pub fn value(&self) -> (r: &Text)
        ensures
            *r == self.spec_value(),
    {
        &self.value
    }

    /// The property's parameters.
    pub fn params(&self) -> (r: &SharedParams)
        ensures
            *r == self.spec_params(),
    {
        &self.params
    }
}

impl Ical for ProductIdentifier {
    /// The content line: `PRODID`, the parameters, `:`, the value.
    open spec fn ical(&self) -> Seq<u8> {
        "PRODID".spec_bytes() + self.spec_params().ical() + seq![COLON] + self.spec_value().ical()
    }

    proof fn lemma_ical_valid(&self) {
        self.spec_params().lemma_ical_valid();
        self.spec_value().lemma_ical_valid();
        lemma_line_valid("PRODID", self.spec_params().ical(), self.spec_value().ical());
    }

    fn write_to(&self, out: &mut Vec<u8>) {
        append_str(out, "PRODID");
        self.params.write_to(out);
        out.push(COLON);
        self.value.write_to(out);
        assert(out@ =~= old(out)@ + self.ical());
    }
}
/// The iCalendar specification version required to read the object (RFC
/// 5545 §3.7.4).
#[derive(Debug)]
pub struct Version {
    value: Text,
    params: SharedParams,
}

impl Version {
    /// The property's value.
    pub closed spec fn spec_value(&self) -> Text {
        self.value
    }

    /// The property's parameters.
    pub closed spec fn spec_params(&self) -> SharedParams {
        self.params
    }

    /// Whether the rest of a content line, after the name, parses.
    pub open spec fn parses(v: Seq<u8>) -> bool {
        match first_unquoted(v, COLON) {
            Some(k) => SharedParams::parses(param_pieces(v.take(k))) && Text::parses(v.skip(k + 1)),
            None => false,
        }
    }

    /// Whether this property is what the rest of a content line parses to.
    pub open spec fn describes(&self, v: Seq<u8>) -> bool {
        match first_unquoted(v, COLON) {
            Some(k) => self.spec_params().describes(param_pieces(v.take(k))) && Text::accepts(
                v.skip(k + 1),
                self.spec_value(),
            ),
            None => false,
        }
    }

    /// Parses the rest of a content line, after the name: the parameters,
    /// `:`, the value.
    pub fn try_from(v: &[u8]) -> (r: Result<Version, ParseError>)
        ensures
            r is Ok <==> Version::parses(v@),
            r matches Ok(p) ==> p.describes(v@),
            first_unquoted(v@, COLON) is None ==> r matches Err(ParseError::Parameter { .. }),
    {
        let (head, tail) = split_remainder(v)?;
        let params = match SharedParams::parse(head.as_slice()) {
            Ok(p) => p,
            Err(e) => {
                return Err(ParseError::Parameters(e));
            },
        };
        let value = match Text::try_from(tail.as_slice()) {
            Ok(x) => x,
            Err(e) => {
                return Err(ParseError::Value(e));
            },
        };
        Ok(Version { value, params })
    }

    /// The property with no parameters.
    pub fn new(value: Text) -> (r: Version)
        ensures
            r.spec_value() == value,
            r.spec_params().iana_bytes() == Seq::<Seq<u8>>::empty(),
            r.spec_params().xname_bytes() == Seq::<Seq<u8>>::empty(),
    {
        Version { value, params: SharedParams::new() }
    }

    /// The property's value.
    pub fn value(&self) -> (r: &Text)
        ensures
            *r == self.spec_value(),
    {
        &self.value
    }

    /// The property's parameters.
    pub fn params(&self) -> (r: &SharedParams)
        ensures
            *r == self.spec_params(),
    {
        &self.params
    }
}

impl Ical for Version {
    /// The content line: `VERSION`, the parameters, `:`, the value.
    open spec fn ical(&self) -> Seq<u8> {
        "VERSION".spec_bytes() + self.spec_params().ical() + seq![COLON] + self.spec_value().ical()
    }

    proof fn lemma_ical_valid(&self) {
        self.spec_params().lemma_ical_valid();
        self.spec_value().lemma_ical_valid();
        lemma_line_valid("VERSION", self.spec_params().ical(), self.spec_value().ical());
    }

    fn write_to(&self, out: &mut Vec<u8>) {
        append_str(out, "VERSION");
        self.params.write_to(out);
        out.push(COLON);
        self.value.write_to(out);
        assert(out@ =~= old(out)@ + self.ical());
    }
}
} // verus!
