//! Locations an alarm can be tied to (RFC 9073 §7.2, as RFC 9074 §8 nests them).

use vstd::prelude::*;
use vstd::utf8::valid_utf8;
use std::marker::PhantomData;
use crate::components::{
    blocks, delimiter, first_err, lemma_blocks_valid, lemma_delimiter_valid, lemma_line_valid, lemma_lines_valid,
    lemma_opt_line_valid, line, lines, opt_line, start_checks, check_start, write_blocks, write_delimiter,
    write_line, write_lines, write_opt_line,
    ComponentError,
};
use crate::properties::component::descriptive::{Description, Geo};
use crate::properties::component::location::{LocationType, Name};
use crate::properties::component::relationship::{Uid, UniformResourceLocator};
use crate::properties::{Iana, Xprop};
use crate::properties::component::datetime::value_type_check;
use crate::values::datetime::DateOrDatetime;
use crate::values::Ical;


use crate::ast::property::Property;
use crate::properties::PropertyError;
verus! {

/// The properties of a [`VLocation`] or of a [`VLocationBuilder`].
pub struct VLocationParts {
    /// `uid`.
    pub uid: Uid,
    /// `name`.
    pub name: Option<Name>,
    /// `description`.
    pub description: Option<Description>,
    /// `geo`.
    pub geo: Option<Geo>,
    /// `loctype`.
    pub loctype: Option<LocationType>,
    /// `url`.
    pub url: Option<UniformResourceLocator>,
    /// `xprop`.
    pub xprop: Seq<Xprop>,
    /// `iana`.
    pub iana: Seq<Iana>,
}

/// A `VLOCATION` component (RFC 9073 §7.2), nested in an alarm to tie it
/// to a place (RFC 9074 §8).
#[derive(Debug)]
pub struct VLocation {
    uid: Uid,
    name: Option<Name>,
    description: Option<Description>,
    geo: Option<Geo>,
    loctype: Option<LocationType>,
    url: Option<UniformResourceLocator>,
    xprop: Vec<Xprop>,
    iana: Vec<Iana>,
}

/// Lines 0 of a written [`VLocation`].
pub open spec fn vlocation_lines_0(p: VLocationParts) -> Seq<u8> {
    line(p.uid)
        + opt_line(p.name)
        + opt_line(p.description)
        + opt_line(p.geo)
        + opt_line(p.loctype)
        + opt_line(p.url)
        + lines(p.xprop)
        + lines(p.iana)
}

/// The lines of a written [`VLocation`], between its delimiters.
#[verifier::opaque]
pub open spec fn vlocation_body(p: VLocationParts) -> Seq<u8> {
    vlocation_lines_0(p)
}

proof fn lemma_vlocation_lines_0_valid(p: VLocationParts)
    ensures
        valid_utf8(vlocation_lines_0(p)),
{
    lemma_line_valid(p.uid);
    lemma_opt_line_valid(p.name);
    lemma_opt_line_valid(p.description);
    lemma_opt_line_valid(p.geo);
    lemma_opt_line_valid(p.loctype);
    lemma_opt_line_valid(p.url);
    lemma_lines_valid(p.xprop);
    lemma_lines_valid(p.iana);
    vstd::utf8::valid_utf8_concat(line(p.uid), opt_line(p.name));
    vstd::utf8::valid_utf8_concat(line(p.uid) + opt_line(p.name), opt_line(p.description));
    vstd::utf8::valid_utf8_concat(line(p.uid) + opt_line(p.name) + opt_line(p.description), opt_line(p.geo));
    vstd::utf8::valid_utf8_concat(line(p.uid) + opt_line(p.name) + opt_line(p.description) + opt_line(p.geo), opt_line(p.loctype));
    vstd::utf8::valid_utf8_concat(line(p.uid) + opt_line(p.name) + opt_line(p.description) + opt_line(p.geo) + opt_line(p.loctype), opt_line(p.url));
    vstd::utf8::valid_utf8_concat(line(p.uid) + opt_line(p.name) + opt_line(p.description) + opt_line(p.geo) + opt_line(p.loctype) + opt_line(p.url), lines(p.xprop));
    vstd::utf8::valid_utf8_concat(line(p.uid) + opt_line(p.name) + opt_line(p.description) + opt_line(p.geo) + opt_line(p.loctype) + opt_line(p.url) + lines(p.xprop), lines(p.iana));
}

proof fn lemma_vlocation_body_valid(p: VLocationParts)
    ensures
        valid_utf8(vlocation_body(p)),
{
    reveal(vlocation_body);
    lemma_vlocation_lines_0_valid(p);
}

impl VLocation {
    /// The properties held.
    pub closed spec fn parts(&self) -> VLocationParts {
        VLocationParts {
            uid: self.uid,
            name: self.name,
            description: self.description,
            geo: self.geo,
            loctype: self.loctype,
            url: self.url,
            xprop: self.xprop@,
            iana: self.iana@,
        }
    }

    /// `uid`.
    pub fn uid(&self) -> (r: &Uid)
        ensures
            *r == self.parts().uid,
    {
        &self.uid
    }

    /// `name`, if set.
    pub fn name(&self) -> (r: Option<&Name>)
        ensures
            match r {
                Some(x) => self.parts().name == Some(*x),
                None => self.parts().name is None,
            },
    {
        self.name.as_ref()
    }

    /// `description`, if set.
    pub fn description(&self) -> (r: Option<&Description>)
        ensures
            match r {
                Some(x) => self.parts().description == Some(*x),
                None => self.parts().description is None,
            },
    {
        self.description.as_ref()
    }

    /// `geo`, if set.
    pub fn geo(&self) -> (r: Option<&Geo>)
        ensures
            match r {
                Some(x) => self.parts().geo == Some(*x),
                None => self.parts().geo is None,
            },
    {
        self.geo.as_ref()
    }

    /// `loctype`, if set.
    pub fn loctype(&self) -> (r: Option<&LocationType>)
        ensures
            match r {
                Some(x) => self.parts().loctype == Some(*x),
                None => self.parts().loctype is None,
            },
    {
        self.loctype.as_ref()
    }

    /// `url`, if set.
    pub fn url(&self) -> (r: Option<&UniformResourceLocator>)
        ensures
            match r {
                Some(x) => self.parts().url == Some(*x),
                None => self.parts().url is None,
            },
    {
        self.url.as_ref()
    }

    /// `xprop`, in order.
    pub fn xprop(&self) -> (r: &[Xprop])
        ensures
            r@ == self.parts().xprop,
    {
        self.xprop.as_slice()
    }

    /// `iana`, in order.
    pub fn iana(&self) -> (r: &[Iana])
        ensures
            r@ == self.parts().iana,
    {
        self.iana.as_slice()
    }

    fn write_lines_0(&self, out: &mut Vec<u8>)
        ensures
            final(out)@ == old(out)@ + vlocation_lines_0(self.parts()),
    {
        write_line(&self.uid, out);
        write_opt_line(&self.name, out);
        write_opt_line(&self.description, out);
        write_opt_line(&self.geo, out);
        write_opt_line(&self.loctype, out);
        write_opt_line(&self.url, out);
        write_lines(self.xprop.as_slice(), out);
        write_lines(self.iana.as_slice(), out);
        assert(out@ =~= old(out)@ + vlocation_lines_0(self.parts()));
    }

    fn write_body(&self, out: &mut Vec<u8>)
        ensures
            final(out)@ == old(out)@ + vlocation_body(self.parts()),
    {
        reveal(vlocation_body);
        self.write_lines_0(out);
        assert(out@ =~= old(out)@ + vlocation_body(self.parts()));
    }
}

impl Ical for VLocation {
    /// `BEGIN:VLOCATION`, a line for each property, each nested component, and
    /// `END:VLOCATION`.
    open spec fn ical(&self) -> Seq<u8> {
        delimiter("BEGIN:", "VLOCATION") + vlocation_body(self.parts()) + delimiter("END:", "VLOCATION")
    }

    proof fn lemma_ical_valid(&self) {
        lemma_delimiter_valid("BEGIN:", "VLOCATION");
        lemma_delimiter_valid("END:", "VLOCATION");
        lemma_vlocation_body_valid(self.parts());
        vstd::utf8::valid_utf8_concat(delimiter("BEGIN:", "VLOCATION"), vlocation_body(self.parts()));
        vstd::utf8::valid_utf8_concat(
            delimiter("BEGIN:", "VLOCATION") + vlocation_body(self.parts()),
            delimiter("END:", "VLOCATION"),
        );
    }

    fn write_to(&self, out: &mut Vec<u8>) {
        write_delimiter("BEGIN:", "VLOCATION", out);
        self.write_body(out);
        write_delimiter("END:", "VLOCATION", out);
        assert(out@ =~= old(out)@ + self.ical());
    }
}

/// Builds a [`VLocation`].
#[derive(Debug)]
pub struct VLocationBuilder {
    uid: Uid,
    name: Option<Name>,
    description: Option<Description>,
    geo: Option<Geo>,
    loctype: Option<LocationType>,
    url: Option<UniformResourceLocator>,
    xprop: Vec<Xprop>,
    iana: Vec<Iana>,
}

impl VLocationBuilder {
    /// The properties held.
    pub closed spec fn parts(&self) -> VLocationParts {
        VLocationParts {
            uid: self.uid,
            name: self.name,
            description: self.description,
            geo: self.geo,
            loctype: self.loctype,
            url: self.url,
            xprop: self.xprop@,
            iana: self.iana@,
        }
    }

    /// Sets `name`.
    pub fn name(self, v: Name) -> (r: VLocationBuilder)
        ensures
            r.parts() == (VLocationParts { name: Some(v), ..self.parts() }),
    {
        let mut b = self;
        b.name = Some(v);
        b
    }

    /// Sets `description`.
    pub fn description(self, v: Description) -> (r: VLocationBuilder)
        ensures
            r.parts() == (VLocationParts { description: Some(v), ..self.parts() }),
    {
        let mut b = self;
        b.description = Some(v);
        b
    }

    /// Sets `geo`.
    pub fn geo(self, v: Geo) -> (r: VLocationBuilder)
        ensures
            r.parts() == (VLocationParts { geo: Some(v), ..self.parts() }),
    {
        let mut b = self;
        b.geo = Some(v);
        b
    }

    /// Sets `loctype`.
    pub fn loctype(self, v: LocationType) -> (r: VLocationBuilder)
        ensures
            r.parts() == (VLocationParts { loctype: Some(v), ..self.parts() }),
    {
        let mut b = self;
        b.loctype = Some(v);
        b
    }

    /// Sets `url`.
    pub fn url(self, v: UniformResourceLocator) -> (r: VLocationBuilder)
        ensures
            r.parts() == (VLocationParts { url: Some(v), ..self.parts() }),
    {
        let mut b = self;
        b.url = Some(v);
        b
    }

    /// Adds a `xprop`.
    pub fn xprop(self, v: Xprop) -> (r: VLocationBuilder)
        ensures
            r.parts() == (VLocationParts { xprop: self.parts().xprop.push(v), ..self.parts() }),
    {
        let mut b = self;
        b.xprop.push(v);
        b
    }

    /// Adds a `iana`.
    pub fn iana(self, v: Iana) -> (r: VLocationBuilder)
        ensures
            r.parts() == (VLocationParts { iana: self.parts().iana.push(v), ..self.parts() }),
    {
        let mut b = self;
        b.iana.push(v);
        b
    }

    /// The component; no rule holds between its properties.
    pub fn build(self) -> (r: VLocation)
        ensures
            r.parts() == self.parts(),
    {
        VLocation {
            uid: self.uid,
            name: self.name,
            description: self.description,
            geo: self.geo,
            loctype: self.loctype,
            url: self.url,
            xprop: self.xprop,
            iana: self.iana,
        }
    }
}

impl VLocationBuilder {
    /// A builder for the location identified by `uid`.
    pub fn new(uid: Uid) -> (r: VLocationBuilder)
        ensures
            r.parts() == (VLocationParts { uid, name: None, description: None, geo: None, loctype: None, url: None, xprop: Seq::empty(), iana: Seq::empty() }),
    {
        VLocationBuilder {
            uid,
            name: None,
            description: None,
            geo: None,
            loctype: None,
            url: None,
            xprop: Vec::new(),
            iana: Vec::new(),
        }
    }
}


/// The properties of a [`VLocationParseBuilder`], as values.
pub ghost struct VLocationParseParts {
    /// `uid`.
    pub uid: Option<Uid>,
    /// `name`.
    pub name: Option<Name>,
    /// `description`.
    pub description: Option<Description>,
    /// `geo`.
    pub geo: Option<Geo>,
    /// `loctype`.
    pub loctype: Option<LocationType>,
    /// `url`.
    pub url: Option<UniformResourceLocator>,
    /// `xprop`.
    pub xprop: Seq<Xprop>,
    /// `iana`.
    pub iana: Seq<Iana>,
}

/// Collects the content lines of a component being read, in the order
/// they come, and builds it at its end.
#[derive(Debug)]
pub struct VLocationParseBuilder {
    uid: Option<Uid>,
    name: Option<Name>,
    description: Option<Description>,
    geo: Option<Geo>,
    loctype: Option<LocationType>,
    url: Option<UniformResourceLocator>,
    xprop: Vec<Xprop>,
    iana: Vec<Iana>,
}

/// What reading the property `p` does to the properties `q` collected so
/// far: a property held once may not come twice, one held many times is
/// added, and one the component doesn't hold is refused.
#[verifier::opaque]
pub open spec fn vlocation_ingest(q: VLocationParseParts, p: Property) -> Result<VLocationParseParts, PropertyError> {
    match p {
        Property::Uid(x) => if q.uid is Some {
            Err(PropertyError::DuplicateProperty("UID"))
        } else {
            Ok(VLocationParseParts { uid: Some(x), ..q })
        },
        Property::Name(x) => if q.name is Some {
            Err(PropertyError::DuplicateProperty("NAME"))
        } else {
            Ok(VLocationParseParts { name: Some(x), ..q })
        },
        Property::Description(x) => if q.description is Some {
            Err(PropertyError::DuplicateProperty("DESCRIPTION"))
        } else {
            Ok(VLocationParseParts { description: Some(x), ..q })
        },
        Property::Geo(x) => if q.geo is Some {
            Err(PropertyError::DuplicateProperty("GEO"))
        } else {
            Ok(VLocationParseParts { geo: Some(x), ..q })
        },
        Property::LocationType(x) => if q.loctype is Some {
            Err(PropertyError::DuplicateProperty("LOCATION-TYPE"))
        } else {
            Ok(VLocationParseParts { loctype: Some(x), ..q })
        },
        Property::UniformResourceLocator(x) => if q.url is Some {
            Err(PropertyError::DuplicateProperty("URL"))
        } else {
            Ok(VLocationParseParts { url: Some(x), ..q })
        },
        Property::Xprop(x) => Ok(VLocationParseParts { xprop: q.xprop.push(x), ..q }),
        Property::Iana(x) => Ok(VLocationParseParts { iana: q.iana.push(x), ..q }),
        _ => Err(PropertyError::UnexpectedProperty),
    }
}

/// The properties `props` read one after the other into an empty
/// [`VLocationParseBuilder`], or the first refusal.
pub open spec fn vlocation_fold(props: Seq<Property>) -> Result<VLocationParseParts, PropertyError>
    decreases props.len(),
{
    if props.len() == 0 {
        Ok(VLocationParseBuilder::empty_parts())
    } else {
        match vlocation_fold(props.drop_last()) {
            Ok(q) => vlocation_ingest(q, props.last()),
            Err(e) => Err(e),
        }
    }
}

/// The properties `q` holds, once those it requires are there.
pub open spec fn vlocation_parts_of(q: VLocationParseParts) -> VLocationParts {
    VLocationParts {
        uid: q.uid->0,
        name: q.name,
        description: q.description,
        geo: q.geo,
        loctype: q.loctype,
        url: q.url,
        xprop: q.xprop,
        iana: q.iana,
    }
}

/// The first property `q` requires and lacks, if any.
pub open spec fn vlocation_missing(q: VLocationParseParts) -> Option<&'static str> {
    if q.uid is None {
        Some("UID")
    } else {
        None
    }
}

impl VLocationParseBuilder {
    /// The properties collected.
    pub closed spec fn parts(&self) -> VLocationParseParts {
        VLocationParseParts {
            uid: self.uid,
            name: self.name,
            description: self.description,
            geo: self.geo,
            loctype: self.loctype,
            url: self.url,
            xprop: self.xprop@,
            iana: self.iana@,
        }
    }

    /// Nothing collected yet.
    pub open spec fn empty_parts() -> VLocationParseParts {
        VLocationParseParts {
            uid: None,
            name: None,
            description: None,
            geo: None,
            loctype: None,
            url: None,
            xprop: Seq::empty(),
            iana: Seq::empty(),
        }
    }

    /// A component with nothing collected yet.
    pub fn new() -> (r: VLocationParseBuilder)
        ensures
            r.parts() == VLocationParseBuilder::empty_parts(),
    {
        VLocationParseBuilder {
            uid: None,
            name: None,
            description: None,
            geo: None,
            loctype: None,
            url: None,
            xprop: Vec::new(),
            iana: Vec::new(),
        }
    }

    /// Reads one property into the component.
    pub fn ingest(&mut self, p: Property) -> (r: Result<(), PropertyError>)
        ensures
            match vlocation_ingest(old(self).parts(), p) {
                Ok(q) => r is Ok && final(self).parts() == q,
                Err(e) => r == Err::<(), PropertyError>(e) && final(self).parts() == old(self).parts(),
            },
    {
        reveal(vlocation_ingest);
        match p {
            Property::Uid(x) => {
                if self.uid.is_some() {
                    return Err(PropertyError::DuplicateProperty("UID"));
                }
                self.uid = Some(x);
                Ok(())
            },
            Property::Name(x) => {
                if self.name.is_some() {
                    return Err(PropertyError::DuplicateProperty("NAME"));
                }
                self.name = Some(x);
                Ok(())
            },
            Property::Description(x) => {
                if self.description.is_some() {
                    return Err(PropertyError::DuplicateProperty("DESCRIPTION"));
                }
                self.description = Some(x);
                Ok(())
            },
            Property::Geo(x) => {
                if self.geo.is_some() {
                    return Err(PropertyError::DuplicateProperty("GEO"));
                }
                self.geo = Some(x);
                Ok(())
            },
            Property::LocationType(x) => {
                if self.loctype.is_some() {
                    return Err(PropertyError::DuplicateProperty("LOCATION-TYPE"));
                }
                self.loctype = Some(x);
                Ok(())
            },
            Property::UniformResourceLocator(x) => {
                if self.url.is_some() {
                    return Err(PropertyError::DuplicateProperty("URL"));
                }
                self.url = Some(x);
                Ok(())
            },
            Property::Xprop(x) => {
                self.xprop.push(x);
                Ok(())
            },
            Property::Iana(x) => {
                self.iana.push(x);
                Ok(())
            },
            _ => Err(PropertyError::UnexpectedProperty),
        }
    }

    /// Builds the component: the properties it requires must be there,
    /// and then it is checked as its builder checks it.
    pub fn finish(self) -> (r: Result<VLocation, ComponentError>)
        ensures
            vlocation_missing(self.parts()) matches Some(n) ==> r == Err::<VLocation, ComponentError>(ComponentError::MissingField(n)),
            vlocation_missing(self.parts()) is None ==> r is Ok,
            r matches Ok(c) ==> c.parts() == vlocation_parts_of(self.parts()),
    {
        let VLocationParseBuilder { uid, name, description, geo, loctype, url, xprop, iana } = self;
        let uid = match uid {
            Some(x) => x,
            None => {
                return Err(ComponentError::MissingField("UID"));
            },
        };
        let b = VLocationBuilder {
            uid,
            name,
            description,
            geo,
            loctype,
            url,
            xprop,
            iana,
        };
        Ok(b.build())
    }
}

} // verus!
