//! Relationship component properties (RFC 5545 §3.8.4).

use vstd::prelude::*;
use vstd::string::StringSliceAdditionalSpecFns;
use crate::bytes::{append_str, eq_str, first_unquoted, lemma_str_bytes_differ, param_pieces, param_segments, to_upper, vec_views, COLON};
use crate::params::{
    Altrep, CalendarUserType, CommonName, Delegatees, Delegators, DirectoryEntryReference,
    Language, Member, ParticipationStatus, RecurrenceIdentifierRange, RelationshipType, Rsvp,
    SentBy, TimeZoneIdentifier, ValueDataType,
};
use crate::values::datetime::{date_or_datetime_resolved, DateOrDatetime};
use crate::properties::{
    keepable, kept, kept_step, last_value, lemma_kept_push, lemma_kept_unmodeled_fails, lemma_line_valid, lemma_step,
    modeled, named, param_name, param_value, seg_value, split_remainder, unmodeled,
    AltrepLanguageParams, ParameterError, ParseError, SharedParams,
};
use crate::values::{CalendarUserAddress, Ical, Text, Uri};
use vstd::utf8::valid_utf8;

verus! {

/// The parameters of an `ATTENDEE` property.
#[derive(Debug)]
pub struct AttendeeParams {
    shared: SharedParams,
    language: Option<Language>,
    calendar_user_type: Option<CalendarUserType>,
    member: Option<Member>,
    status: Option<ParticipationStatus>,
    rsvp: Option<Rsvp>,
    delegatees: Option<Delegatees>,
    delegators: Option<Delegators>,
    sent_by: Option<SentBy>,
    common_name: Option<CommonName>,
    directory: Option<DirectoryEntryReference>,
}

impl AttendeeParams {
    /// The names of the parameters modeled here.
    pub open spec fn keys() -> Seq<Seq<u8>> {
        seq!["LANGUAGE".spec_bytes(), "CUTYPE".spec_bytes(), "MEMBER".spec_bytes(), "PARTSTAT".spec_bytes(), "RSVP".spec_bytes(), "DELEGATED-TO".spec_bytes(), "DELEGATED-FROM".spec_bytes(), "SENT-BY".spec_bytes(), "CN".spec_bytes(), "DIR".spec_bytes()]
    }

    /// Whether the segments `ps` parse: every unmodeled one can be kept and
    /// every modeled one holds a value of its parameter.
    pub open spec fn parses(ps: Seq<Seq<u8>>) -> bool {
        &&& kept(unmodeled(ps, AttendeeParams::keys())) is Some
        &&& forall|i: int|
            0 <= i < ps.len() && named(#[trigger] ps[i], "LANGUAGE".spec_bytes()) ==> Language::parses(
                seg_value(ps[i]),
            )
        &&& forall|i: int|
            0 <= i < ps.len() && named(#[trigger] ps[i], "CUTYPE".spec_bytes()) ==> CalendarUserType::parses(
                seg_value(ps[i]),
            )
        &&& forall|i: int|
            0 <= i < ps.len() && named(#[trigger] ps[i], "MEMBER".spec_bytes()) ==> Member::parses(
                seg_value(ps[i]),
            )
        &&& forall|i: int|
            0 <= i < ps.len() && named(#[trigger] ps[i], "PARTSTAT".spec_bytes()) ==> ParticipationStatus::parses(
                seg_value(ps[i]),
            )
        &&& forall|i: int|
            0 <= i < ps.len() && named(#[trigger] ps[i], "RSVP".spec_bytes()) ==> Rsvp::parses(
                seg_value(ps[i]),
            )
        &&& forall|i: int|
            0 <= i < ps.len() && named(#[trigger] ps[i], "DELEGATED-TO".spec_bytes()) ==> Delegatees::parses(
                seg_value(ps[i]),
            )
        &&& forall|i: int|
            0 <= i < ps.len() && named(#[trigger] ps[i], "DELEGATED-FROM".spec_bytes()) ==> Delegators::parses(
                seg_value(ps[i]),
            )
        &&& forall|i: int|
            0 <= i < ps.len() && named(#[trigger] ps[i], "SENT-BY".spec_bytes()) ==> SentBy::parses(
                seg_value(ps[i]),
            )
        &&& forall|i: int|
            0 <= i < ps.len() && named(#[trigger] ps[i], "CN".spec_bytes()) ==> CommonName::parses(
                seg_value(ps[i]),
            )
        &&& forall|i: int|
            0 <= i < ps.len() && named(#[trigger] ps[i], "DIR".spec_bytes()) ==> DirectoryEntryReference::parses(
                seg_value(ps[i]),
            )
    }

    /// The unmodeled parameters.
    pub closed spec fn spec_shared(&self) -> SharedParams {
        self.shared
    }

    /// The `LANGUAGE` parameter.
    pub closed spec fn spec_language(&self) -> Option<Language> {
        self.language
    }

    /// The `CUTYPE` parameter.
    pub closed spec fn spec_calendar_user_type(&self) -> Option<CalendarUserType> {
        self.calendar_user_type
    }

    /// The `MEMBER` parameter.
    pub closed spec fn spec_member(&self) -> Option<Member> {
        self.member
    }

    /// The `PARTSTAT` parameter.
    pub closed spec fn spec_status(&self) -> Option<ParticipationStatus> {
        self.status
    }

    /// The `RSVP` parameter.
    pub closed spec fn spec_rsvp(&self) -> Option<Rsvp> {
        self.rsvp
    }

    /// The `DELEGATED-TO` parameter.
    pub closed spec fn spec_delegatees(&self) -> Option<Delegatees> {
        self.delegatees
    }

    /// The `DELEGATED-FROM` parameter.
    pub closed spec fn spec_delegators(&self) -> Option<Delegators> {
        self.delegators
    }

    /// The `SENT-BY` parameter.
    pub closed spec fn spec_sent_by(&self) -> Option<SentBy> {
        self.sent_by
    }

    /// The `CN` parameter.
    pub closed spec fn spec_common_name(&self) -> Option<CommonName> {
        self.common_name
    }

    /// The `DIR` parameter.
    pub closed spec fn spec_directory(&self) -> Option<DirectoryEntryReference> {
        self.directory
    }

    /// Whether these parameters are what the segments `ps` parse to: each
    /// modeled parameter from its last occurrence, the rest kept in order.
    pub open spec fn describes(&self, ps: Seq<Seq<u8>>) -> bool {
        &&& kept(unmodeled(ps, AttendeeParams::keys())) == Some(
            (self.spec_shared().iana_bytes(), self.spec_shared().xname_bytes()),
        )
        &&& match last_value(ps, "LANGUAGE".spec_bytes()) {
            Some(v) => self.spec_language() matches Some(x) && Language::accepts(v, x),
            None => self.spec_language() is None,
        }
        &&& match last_value(ps, "CUTYPE".spec_bytes()) {
            Some(v) => self.spec_calendar_user_type() matches Some(x) && CalendarUserType::accepts(v, x),
            None => self.spec_calendar_user_type() is None,
        }
        &&& match last_value(ps, "MEMBER".spec_bytes()) {
            Some(v) => self.spec_member() matches Some(x) && Member::accepts(v, x),
            None => self.spec_member() is None,
        }
        &&& match last_value(ps, "PARTSTAT".spec_bytes()) {
            Some(v) => self.spec_status() matches Some(x) && ParticipationStatus::accepts(v, x),
            None => self.spec_status() is None,
        }
        &&& match last_value(ps, "RSVP".spec_bytes()) {
            Some(v) => self.spec_rsvp() matches Some(x) && Rsvp::accepts(v, x),
            None => self.spec_rsvp() is None,
        }
        &&& match last_value(ps, "DELEGATED-TO".spec_bytes()) {
            Some(v) => self.spec_delegatees() matches Some(x) && Delegatees::accepts(v, x),
            None => self.spec_delegatees() is None,
        }
        &&& match last_value(ps, "DELEGATED-FROM".spec_bytes()) {
            Some(v) => self.spec_delegators() matches Some(x) && Delegators::accepts(v, x),
            None => self.spec_delegators() is None,
        }
        &&& match last_value(ps, "SENT-BY".spec_bytes()) {
            Some(v) => self.spec_sent_by() matches Some(x) && SentBy::accepts(v, x),
            None => self.spec_sent_by() is None,
        }
        &&& match last_value(ps, "CN".spec_bytes()) {
            Some(v) => self.spec_common_name() matches Some(x) && CommonName::accepts(v, x),
            None => self.spec_common_name() is None,
        }
        &&& match last_value(ps, "DIR".spec_bytes()) {
            Some(v) => self.spec_directory() matches Some(x) && DirectoryEntryReference::accepts(v, x),
            None => self.spec_directory() is None,
        }
    }

    /// No parameters.
    pub fn new() -> (r: AttendeeParams)
        ensures
            r.spec_shared().iana_bytes() == Seq::<Seq<u8>>::empty(),
            r.spec_shared().xname_bytes() == Seq::<Seq<u8>>::empty(),
            r.spec_language() is None,
            r.spec_calendar_user_type() is None,
            r.spec_member() is None,
            r.spec_status() is None,
            r.spec_rsvp() is None,
            r.spec_delegatees() is None,
            r.spec_delegators() is None,
            r.spec_sent_by() is None,
            r.spec_common_name() is None,
            r.spec_directory() is None,
    {
        AttendeeParams { shared: SharedParams::new(), language: None, calendar_user_type: None, member: None, status: None, rsvp: None, delegatees: None, delegators: None, sent_by: None, common_name: None, directory: None }
    }

    /// The names modeled here differ from one another.
    proof fn lemma_keys_distinct()
        ensures
            "LANGUAGE".spec_bytes() != "CUTYPE".spec_bytes(),
            "LANGUAGE".spec_bytes() != "MEMBER".spec_bytes(),
            "LANGUAGE".spec_bytes() != "PARTSTAT".spec_bytes(),
            "LANGUAGE".spec_bytes() != "RSVP".spec_bytes(),
            "LANGUAGE".spec_bytes() != "DELEGATED-TO".spec_bytes(),
            "LANGUAGE".spec_bytes() != "DELEGATED-FROM".spec_bytes(),
            "LANGUAGE".spec_bytes() != "SENT-BY".spec_bytes(),
            "LANGUAGE".spec_bytes() != "CN".spec_bytes(),
            "LANGUAGE".spec_bytes() != "DIR".spec_bytes(),
            "CUTYPE".spec_bytes() != "MEMBER".spec_bytes(),
            "CUTYPE".spec_bytes() != "PARTSTAT".spec_bytes(),
            "CUTYPE".spec_bytes() != "RSVP".spec_bytes(),
            "CUTYPE".spec_bytes() != "DELEGATED-TO".spec_bytes(),
            "CUTYPE".spec_bytes() != "DELEGATED-FROM".spec_bytes(),
            "CUTYPE".spec_bytes() != "SENT-BY".spec_bytes(),
            "CUTYPE".spec_bytes() != "CN".spec_bytes(),
            "CUTYPE".spec_bytes() != "DIR".spec_bytes(),
            "MEMBER".spec_bytes() != "PARTSTAT".spec_bytes(),
            "MEMBER".spec_bytes() != "RSVP".spec_bytes(),
            "MEMBER".spec_bytes() != "DELEGATED-TO".spec_bytes(),
            "MEMBER".spec_bytes() != "DELEGATED-FROM".spec_bytes(),
            "MEMBER".spec_bytes() != "SENT-BY".spec_bytes(),
            "MEMBER".spec_bytes() != "CN".spec_bytes(),
            "MEMBER".spec_bytes() != "DIR".spec_bytes(),
            "PARTSTAT".spec_bytes() != "RSVP".spec_bytes(),
            "PARTSTAT".spec_bytes() != "DELEGATED-TO".spec_bytes(),
            "PARTSTAT".spec_bytes() != "DELEGATED-FROM".spec_bytes(),
            "PARTSTAT".spec_bytes() != "SENT-BY".spec_bytes(),
            "PARTSTAT".spec_bytes() != "CN".spec_bytes(),
            "PARTSTAT".spec_bytes() != "DIR".spec_bytes(),
            "RSVP".spec_bytes() != "DELEGATED-TO".spec_bytes(),
            "RSVP".spec_bytes() != "DELEGATED-FROM".spec_bytes(),
            "RSVP".spec_bytes() != "SENT-BY".spec_bytes(),
            "RSVP".spec_bytes() != "CN".spec_bytes(),
            "RSVP".spec_bytes() != "DIR".spec_bytes(),
            "DELEGATED-TO".spec_bytes() != "DELEGATED-FROM".spec_bytes(),
            "DELEGATED-TO".spec_bytes() != "SENT-BY".spec_bytes(),
            "DELEGATED-TO".spec_bytes() != "CN".spec_bytes(),
            "DELEGATED-TO".spec_bytes() != "DIR".spec_bytes(),
            "DELEGATED-FROM".spec_bytes() != "SENT-BY".spec_bytes(),
            "DELEGATED-FROM".spec_bytes() != "CN".spec_bytes(),
            "DELEGATED-FROM".spec_bytes() != "DIR".spec_bytes(),
            "SENT-BY".spec_bytes() != "CN".spec_bytes(),
            "SENT-BY".spec_bytes() != "DIR".spec_bytes(),
            "CN".spec_bytes() != "DIR".spec_bytes(),
    {
        reveal_strlit("LANGUAGE");
        reveal_strlit("CUTYPE");
        reveal_strlit("MEMBER");
        reveal_strlit("PARTSTAT");
        reveal_strlit("RSVP");
        reveal_strlit("DELEGATED-TO");
        reveal_strlit("DELEGATED-FROM");
        reveal_strlit("SENT-BY");
        reveal_strlit("CN");
        reveal_strlit("DIR");
        lemma_str_bytes_differ("LANGUAGE", "CUTYPE", 0);
        lemma_str_bytes_differ("LANGUAGE", "MEMBER", 0);
        lemma_str_bytes_differ("LANGUAGE", "PARTSTAT", 0);
        lemma_str_bytes_differ("LANGUAGE", "RSVP", 0);
        lemma_str_bytes_differ("LANGUAGE", "DELEGATED-TO", 0);
        lemma_str_bytes_differ("LANGUAGE", "DELEGATED-FROM", 0);
        lemma_str_bytes_differ("LANGUAGE", "SENT-BY", 0);
        lemma_str_bytes_differ("LANGUAGE", "CN", 0);
        lemma_str_bytes_differ("LANGUAGE", "DIR", 0);
        lemma_str_bytes_differ("CUTYPE", "MEMBER", 0);
        lemma_str_bytes_differ("CUTYPE", "PARTSTAT", 0);
        lemma_str_bytes_differ("CUTYPE", "RSVP", 0);
        lemma_str_bytes_differ("CUTYPE", "DELEGATED-TO", 0);
        lemma_str_bytes_differ("CUTYPE", "DELEGATED-FROM", 0);
        lemma_str_bytes_differ("CUTYPE", "SENT-BY", 0);
        lemma_str_bytes_differ("CUTYPE", "CN", 0);
        lemma_str_bytes_differ("CUTYPE", "DIR", 0);
        lemma_str_bytes_differ("MEMBER", "PARTSTAT", 0);
        lemma_str_bytes_differ("MEMBER", "RSVP", 0);
        lemma_str_bytes_differ("MEMBER", "DELEGATED-TO", 0);
        lemma_str_bytes_differ("MEMBER", "DELEGATED-FROM", 0);
        lemma_str_bytes_differ("MEMBER", "SENT-BY", 0);
        lemma_str_bytes_differ("MEMBER", "CN", 0);
        lemma_str_bytes_differ("MEMBER", "DIR", 0);
        lemma_str_bytes_differ("PARTSTAT", "RSVP", 0);
        lemma_str_bytes_differ("PARTSTAT", "DELEGATED-TO", 0);
        lemma_str_bytes_differ("PARTSTAT", "DELEGATED-FROM", 0);
        lemma_str_bytes_differ("PARTSTAT", "SENT-BY", 0);
        lemma_str_bytes_differ("PARTSTAT", "CN", 0);
        lemma_str_bytes_differ("PARTSTAT", "DIR", 0);
        lemma_str_bytes_differ("RSVP", "DELEGATED-TO", 0);
        lemma_str_bytes_differ("RSVP", "DELEGATED-FROM", 0);
        lemma_str_bytes_differ("RSVP", "SENT-BY", 0);
        lemma_str_bytes_differ("RSVP", "CN", 0);
        lemma_str_bytes_differ("RSVP", "DIR", 0);
        lemma_str_bytes_differ("DELEGATED-TO", "DELEGATED-FROM", 0);
        lemma_str_bytes_differ("DELEGATED-TO", "SENT-BY", 0);
        lemma_str_bytes_differ("DELEGATED-TO", "CN", 0);
        lemma_str_bytes_differ("DELEGATED-TO", "DIR", 0);
        lemma_str_bytes_differ("DELEGATED-FROM", "SENT-BY", 0);
        lemma_str_bytes_differ("DELEGATED-FROM", "CN", 0);
        lemma_str_bytes_differ("DELEGATED-FROM", "DIR", 0);
        lemma_str_bytes_differ("SENT-BY", "CN", 0);
        lemma_str_bytes_differ("SENT-BY", "DIR", 0);
        lemma_str_bytes_differ("CN", "DIR", 0);
    }

    /// Whether one segment can be taken: a modeled one must hold a value of
    /// its parameter, any other must be keepable.
    pub open spec fn segment_ok(seg: Seq<u8>) -> bool {
        if named(seg, "LANGUAGE".spec_bytes()) {
            Language::parses(seg_value(seg))
        } else if named(seg, "CUTYPE".spec_bytes()) {
            CalendarUserType::parses(seg_value(seg))
        } else if named(seg, "MEMBER".spec_bytes()) {
            Member::parses(seg_value(seg))
        } else if named(seg, "PARTSTAT".spec_bytes()) {
            ParticipationStatus::parses(seg_value(seg))
        } else if named(seg, "RSVP".spec_bytes()) {
            Rsvp::parses(seg_value(seg))
        } else if named(seg, "DELEGATED-TO".spec_bytes()) {
            Delegatees::parses(seg_value(seg))
        } else if named(seg, "DELEGATED-FROM".spec_bytes()) {
            Delegators::parses(seg_value(seg))
        } else if named(seg, "SENT-BY".spec_bytes()) {
            SentBy::parses(seg_value(seg))
        } else if named(seg, "CN".spec_bytes()) {
            CommonName::parses(seg_value(seg))
        } else if named(seg, "DIR".spec_bytes()) {
            DirectoryEntryReference::parses(seg_value(seg))
        } else {
            keepable(seg)
        }
    }

    /// How taking the segment `seg` changes the parameters `p` into `q`.
    pub open spec fn segment_step(p: AttendeeParams, q: AttendeeParams, seg: Seq<u8>) -> bool {
        &&& if named(seg, "LANGUAGE".spec_bytes()) {
            q.spec_language() matches Some(x) && Language::accepts(seg_value(seg), x)
        } else {
            q.spec_language() == p.spec_language()
        }
        &&& if named(seg, "CUTYPE".spec_bytes()) {
            q.spec_calendar_user_type() matches Some(x) && CalendarUserType::accepts(seg_value(seg), x)
        } else {
            q.spec_calendar_user_type() == p.spec_calendar_user_type()
        }
        &&& if named(seg, "MEMBER".spec_bytes()) {
            q.spec_member() matches Some(x) && Member::accepts(seg_value(seg), x)
        } else {
            q.spec_member() == p.spec_member()
        }
        &&& if named(seg, "PARTSTAT".spec_bytes()) {
            q.spec_status() matches Some(x) && ParticipationStatus::accepts(seg_value(seg), x)
        } else {
            q.spec_status() == p.spec_status()
        }
        &&& if named(seg, "RSVP".spec_bytes()) {
            q.spec_rsvp() matches Some(x) && Rsvp::accepts(seg_value(seg), x)
        } else {
            q.spec_rsvp() == p.spec_rsvp()
        }
        &&& if named(seg, "DELEGATED-TO".spec_bytes()) {
            q.spec_delegatees() matches Some(x) && Delegatees::accepts(seg_value(seg), x)
        } else {
            q.spec_delegatees() == p.spec_delegatees()
        }
        &&& if named(seg, "DELEGATED-FROM".spec_bytes()) {
            q.spec_delegators() matches Some(x) && Delegators::accepts(seg_value(seg), x)
        } else {
            q.spec_delegators() == p.spec_delegators()
        }
        &&& if named(seg, "SENT-BY".spec_bytes()) {
            q.spec_sent_by() matches Some(x) && SentBy::accepts(seg_value(seg), x)
        } else {
            q.spec_sent_by() == p.spec_sent_by()
        }
        &&& if named(seg, "CN".spec_bytes()) {
            q.spec_common_name() matches Some(x) && CommonName::accepts(seg_value(seg), x)
        } else {
            q.spec_common_name() == p.spec_common_name()
        }
        &&& if named(seg, "DIR".spec_bytes()) {
            q.spec_directory() matches Some(x) && DirectoryEntryReference::accepts(seg_value(seg), x)
        } else {
            q.spec_directory() == p.spec_directory()
        }
        &&& if modeled(seg, AttendeeParams::keys()) {
            q.spec_shared() == p.spec_shared()
        } else {
            kept_step(p.spec_shared().iana_bytes(), p.spec_shared().xname_bytes(), seg) == Some(
                (q.spec_shared().iana_bytes(), q.spec_shared().xname_bytes()),
            )
        }
    }

    /// Takes one `NAME=VALUE` segment.
    fn take_segment(&mut self, seg: &[u8]) -> (r: Result<(), ParameterError>)
        ensures
            r is Ok <==> AttendeeParams::segment_ok(seg@),
            r is Ok ==> AttendeeParams::segment_step(*old(self), *final(self), seg@),
    {
        proof {
            AttendeeParams::lemma_keys_distinct();
            assert(AttendeeParams::keys()[0] == "LANGUAGE".spec_bytes());
            assert(AttendeeParams::keys()[1] == "CUTYPE".spec_bytes());
            assert(AttendeeParams::keys()[2] == "MEMBER".spec_bytes());
            assert(AttendeeParams::keys()[3] == "PARTSTAT".spec_bytes());
            assert(AttendeeParams::keys()[4] == "RSVP".spec_bytes());
            assert(AttendeeParams::keys()[5] == "DELEGATED-TO".spec_bytes());
            assert(AttendeeParams::keys()[6] == "DELEGATED-FROM".spec_bytes());
            assert(AttendeeParams::keys()[7] == "SENT-BY".spec_bytes());
            assert(AttendeeParams::keys()[8] == "CN".spec_bytes());
            assert(AttendeeParams::keys()[9] == "DIR".spec_bytes());
        }
        let name = match param_name(seg) {
            Ok(n) => n,
            Err(e) => {
                return Err(e);
            },
        };
        let key = to_upper(name.as_slice());
        if eq_str(key.as_slice(), "LANGUAGE") {
            let value = param_value(seg)?;
            match Language::try_from(value.as_slice()) {
                Ok(x) => {
                    self.language = Some(x);
                    Ok(())
                },
                Err(e) => Err(ParameterError::Param(e)),
            }
        } else if eq_str(key.as_slice(), "CUTYPE") {
            let value = param_value(seg)?;
            match CalendarUserType::try_from(value.as_slice()) {
                Ok(x) => {
                    self.calendar_user_type = Some(x);
                    Ok(())
                },
                Err(e) => Err(ParameterError::Param(e)),
            }
        } else if eq_str(key.as_slice(), "MEMBER") {
            let value = param_value(seg)?;
            match Member::try_from(value.as_slice()) {
                Ok(x) => {
                    self.member = Some(x);
                    Ok(())
                },
                Err(e) => Err(ParameterError::Param(e)),
            }
        } else if eq_str(key.as_slice(), "PARTSTAT") {
            let value = param_value(seg)?;
            match ParticipationStatus::try_from(value.as_slice()) {
                Ok(x) => {
                    self.status = Some(x);
                    Ok(())
                },
                Err(e) => Err(ParameterError::Param(e)),
            }
        } else if eq_str(key.as_slice(), "RSVP") {
            let value = param_value(seg)?;
            match Rsvp::try_from(value.as_slice()) {
                Ok(x) => {
                    self.rsvp = Some(x);
                    Ok(())
                },
                Err(e) => Err(ParameterError::Param(e)),
            }
        } else if eq_str(key.as_slice(), "DELEGATED-TO") {
            let value = param_value(seg)?;
            match Delegatees::try_from(value.as_slice()) {
                Ok(x) => {
                    self.delegatees = Some(x);
                    Ok(())
                },
                Err(e) => Err(ParameterError::Param(e)),
            }
        } else if eq_str(key.as_slice(), "DELEGATED-FROM") {
            let value = param_value(seg)?;
            match Delegators::try_from(value.as_slice()) {
                Ok(x) => {
                    self.delegators = Some(x);
                    Ok(())
                },
                Err(e) => Err(ParameterError::Param(e)),
            }
        } else if eq_str(key.as_slice(), "SENT-BY") {
            let value = param_value(seg)?;
            match SentBy::try_from(value.as_slice()) {
                Ok(x) => {
                    self.sent_by = Some(x);
                    Ok(())
                },
                Err(e) => Err(ParameterError::Param(e)),
            }
        } else if eq_str(key.as_slice(), "CN") {
            let value = param_value(seg)?;
            match CommonName::try_from(value.as_slice()) {
                Ok(x) => {
                    self.common_name = Some(x);
                    Ok(())
                },
                Err(e) => Err(ParameterError::Param(e)),
            }
        } else if eq_str(key.as_slice(), "DIR") {
            let value = param_value(seg)?;
            match DirectoryEntryReference::try_from(value.as_slice()) {
                Ok(x) => {
                    self.directory = Some(x);
                    Ok(())
                },
                Err(e) => Err(ParameterError::Param(e)),
            }
        } else {
            assert(!modeled(seg@, AttendeeParams::keys()));
            self.shared.absorb(seg)
        }
    }

    /// Parses a parameter list.
    pub fn parse(v: &[u8]) -> (r: Result<AttendeeParams, ParameterError>)
        ensures
            r is Ok <==> AttendeeParams::parses(param_pieces(v@)),
            r matches Ok(p) ==> p.describes(param_pieces(v@)),
    {
        let segs = param_segments(v);
        let ghost ps = vec_views(segs@);
        let ghost keys = AttendeeParams::keys();
        let mut p = AttendeeParams::new();
        let mut i: usize = 0;
        assert(ps.take(0) =~= Seq::<Seq<u8>>::empty());
        while i < segs.len()
            invariant
                i <= segs.len(),
                ps == vec_views(segs@),
                ps == param_pieces(v@),
                keys == AttendeeParams::keys(),
                kept(unmodeled(ps.take(i as int), keys)) == Some(
                    (p.spec_shared().iana_bytes(), p.spec_shared().xname_bytes()),
                ),
                forall|j: int|
                    0 <= j < i && named(#[trigger] ps[j], "LANGUAGE".spec_bytes()) ==> Language::parses(
                        seg_value(ps[j]),
                    ),
                match last_value(ps.take(i as int), "LANGUAGE".spec_bytes()) {
                    Some(w) => p.spec_language() matches Some(x) && Language::accepts(w, x),
                    None => p.spec_language() is None,
                },
                forall|j: int|
                    0 <= j < i && named(#[trigger] ps[j], "CUTYPE".spec_bytes()) ==> CalendarUserType::parses(
                        seg_value(ps[j]),
                    ),
                match last_value(ps.take(i as int), "CUTYPE".spec_bytes()) {
                    Some(w) => p.spec_calendar_user_type() matches Some(x) && CalendarUserType::accepts(w, x),
                    None => p.spec_calendar_user_type() is None,
                },
                forall|j: int|
                    0 <= j < i && named(#[trigger] ps[j], "MEMBER".spec_bytes()) ==> Member::parses(
                        seg_value(ps[j]),
                    ),
                match last_value(ps.take(i as int), "MEMBER".spec_bytes()) {
                    Some(w) => p.spec_member() matches Some(x) && Member::accepts(w, x),
                    None => p.spec_member() is None,
                },
                forall|j: int|
                    0 <= j < i && named(#[trigger] ps[j], "PARTSTAT".spec_bytes()) ==> ParticipationStatus::parses(
                        seg_value(ps[j]),
                    ),
                match last_value(ps.take(i as int), "PARTSTAT".spec_bytes()) {
                    Some(w) => p.spec_status() matches Some(x) && ParticipationStatus::accepts(w, x),
                    None => p.spec_status() is None,
                },
                forall|j: int|
                    0 <= j < i && named(#[trigger] ps[j], "RSVP".spec_bytes()) ==> Rsvp::parses(
                        seg_value(ps[j]),
                    ),
                match last_value(ps.take(i as int), "RSVP".spec_bytes()) {
                    Some(w) => p.spec_rsvp() matches Some(x) && Rsvp::accepts(w, x),
                    None => p.spec_rsvp() is None,
                },
                forall|j: int|
                    0 <= j < i && named(#[trigger] ps[j], "DELEGATED-TO".spec_bytes()) ==> Delegatees::parses(
                        seg_value(ps[j]),
                    ),
                match last_value(ps.take(i as int), "DELEGATED-TO".spec_bytes()) {
                    Some(w) => p.spec_delegatees() matches Some(x) && Delegatees::accepts(w, x),
                    None => p.spec_delegatees() is None,
                },
                forall|j: int|
                    0 <= j < i && named(#[trigger] ps[j], "DELEGATED-FROM".spec_bytes()) ==> Delegators::parses(
                        seg_value(ps[j]),
                    ),
                match last_value(ps.take(i as int), "DELEGATED-FROM".spec_bytes()) {
                    Some(w) => p.spec_delegators() matches Some(x) && Delegators::accepts(w, x),
                    None => p.spec_delegators() is None,
                },
                forall|j: int|
                    0 <= j < i && named(#[trigger] ps[j], "SENT-BY".spec_bytes()) ==> SentBy::parses(
                        seg_value(ps[j]),
                    ),
                match last_value(ps.take(i as int), "SENT-BY".spec_bytes()) {
                    Some(w) => p.spec_sent_by() matches Some(x) && SentBy::accepts(w, x),
                    None => p.spec_sent_by() is None,
                },
                forall|j: int|
                    0 <= j < i && named(#[trigger] ps[j], "CN".spec_bytes()) ==> CommonName::parses(
                        seg_value(ps[j]),
                    ),
                match last_value(ps.take(i as int), "CN".spec_bytes()) {
                    Some(w) => p.spec_common_name() matches Some(x) && CommonName::accepts(w, x),
                    None => p.spec_common_name() is None,
                },
                forall|j: int|
                    0 <= j < i && named(#[trigger] ps[j], "DIR".spec_bytes()) ==> DirectoryEntryReference::parses(
                        seg_value(ps[j]),
                    ),
                match last_value(ps.take(i as int), "DIR".spec_bytes()) {
                    Some(w) => p.spec_directory() matches Some(x) && DirectoryEntryReference::accepts(w, x),
                    None => p.spec_directory() is None,
                },
            decreases segs.len() - i,
        {
            let seg = segs[i].as_slice();
            proof {
                lemma_step(ps, keys, i as int);
                assert(seg@ == ps[i as int]);
                AttendeeParams::lemma_keys_distinct();
                assert(keys[0] == "LANGUAGE".spec_bytes());
                assert(keys[1] == "CUTYPE".spec_bytes());
                assert(keys[2] == "MEMBER".spec_bytes());
                assert(keys[3] == "PARTSTAT".spec_bytes());
                assert(keys[4] == "RSVP".spec_bytes());
                assert(keys[5] == "DELEGATED-TO".spec_bytes());
                assert(keys[6] == "DELEGATED-FROM".spec_bytes());
                assert(keys[7] == "SENT-BY".spec_bytes());
                assert(keys[8] == "CN".spec_bytes());
                assert(keys[9] == "DIR".spec_bytes());
                lemma_kept_push(unmodeled(ps.take(i as int), keys), ps[i as int]);
            }
            match p.take_segment(seg) {
                Ok(()) => {},
                Err(e) => {
                    proof {
                        if !modeled(ps[i as int], keys) {
                            lemma_kept_unmodeled_fails(ps, keys, i + 1, ps.len() as int);
                        }
                        assert(ps.take(ps.len() as int) =~= ps);
                    }
                    return Err(e);
                },
            }
            i += 1;
        }
        assert(ps.take(segs.len() as int) =~= ps);
        Ok(p)
    }

    /// The unmodeled parameters.
    pub fn shared(&self) -> (r: &SharedParams)
        ensures
            *r == self.spec_shared(),
    {
        &self.shared
    }

    /// The `LANGUAGE` parameter.
    pub fn language(&self) -> (r: Option<&Language>)
        ensures
            match r {
                Some(x) => self.spec_language() == Some(*x),
                None => self.spec_language() is None,
            },
    {
        self.language.as_ref()
    }

    /// Sets the `LANGUAGE` parameter.
    pub fn set_language(&mut self, x: Language)
        ensures
            final(self).spec_language() == Some(x),
            final(self).spec_shared() == old(self).spec_shared(),
            final(self).spec_calendar_user_type() == old(self).spec_calendar_user_type(),
            final(self).spec_member() == old(self).spec_member(),
            final(self).spec_status() == old(self).spec_status(),
            final(self).spec_rsvp() == old(self).spec_rsvp(),
            final(self).spec_delegatees() == old(self).spec_delegatees(),
            final(self).spec_delegators() == old(self).spec_delegators(),
            final(self).spec_sent_by() == old(self).spec_sent_by(),
            final(self).spec_common_name() == old(self).spec_common_name(),
            final(self).spec_directory() == old(self).spec_directory(),
    {
        self.language = Some(x);
    }

    /// The `CUTYPE` parameter.
    pub fn calendar_user_type(&self) -> (r: Option<&CalendarUserType>)
        ensures
            match r {
                Some(x) => self.spec_calendar_user_type() == Some(*x),
                None => self.spec_calendar_user_type() is None,
            },
    {
        self.calendar_user_type.as_ref()
    }

    /// Sets the `CUTYPE` parameter.
    pub fn set_calendar_user_type(&mut self, x: CalendarUserType)
        ensures
            final(self).spec_calendar_user_type() == Some(x),
            final(self).spec_shared() == old(self).spec_shared(),
            final(self).spec_language() == old(self).spec_language(),
            final(self).spec_member() == old(self).spec_member(),
            final(self).spec_status() == old(self).spec_status(),
            final(self).spec_rsvp() == old(self).spec_rsvp(),
            final(self).spec_delegatees() == old(self).spec_delegatees(),
            final(self).spec_delegators() == old(self).spec_delegators(),
            final(self).spec_sent_by() == old(self).spec_sent_by(),
            final(self).spec_common_name() == old(self).spec_common_name(),
            final(self).spec_directory() == old(self).spec_directory(),
    {
        self.calendar_user_type = Some(x);
    }

    /// The `MEMBER` parameter.
    pub fn member(&self) -> (r: Option<&Member>)
        ensures
            match r {
                Some(x) => self.spec_member() == Some(*x),
                None => self.spec_member() is None,
            },
    {
        self.member.as_ref()
    }

    /// Sets the `MEMBER` parameter.
    pub fn set_member(&mut self, x: Member)
        ensures
            final(self).spec_member() == Some(x),
            final(self).spec_shared() == old(self).spec_shared(),
            final(self).spec_language() == old(self).spec_language(),
            final(self).spec_calendar_user_type() == old(self).spec_calendar_user_type(),
            final(self).spec_status() == old(self).spec_status(),
            final(self).spec_rsvp() == old(self).spec_rsvp(),
            final(self).spec_delegatees() == old(self).spec_delegatees(),
            final(self).spec_delegators() == old(self).spec_delegators(),
            final(self).spec_sent_by() == old(self).spec_sent_by(),
            final(self).spec_common_name() == old(self).spec_common_name(),
            final(self).spec_directory() == old(self).spec_directory(),
    {
        self.member = Some(x);
    }

    /// The `PARTSTAT` parameter.
    pub fn status(&self) -> (r: Option<&ParticipationStatus>)
        ensures
            match r {
                Some(x) => self.spec_status() == Some(*x),
                None => self.spec_status() is None,
            },
    {
        self.status.as_ref()
    }

    /// Sets the `PARTSTAT` parameter.
    pub fn set_status(&mut self, x: ParticipationStatus)
        ensures
            final(self).spec_status() == Some(x),
            final(self).spec_shared() == old(self).spec_shared(),
            final(self).spec_language() == old(self).spec_language(),
            final(self).spec_calendar_user_type() == old(self).spec_calendar_user_type(),
            final(self).spec_member() == old(self).spec_member(),
            final(self).spec_rsvp() == old(self).spec_rsvp(),
            final(self).spec_delegatees() == old(self).spec_delegatees(),
            final(self).spec_delegators() == old(self).spec_delegators(),
            final(self).spec_sent_by() == old(self).spec_sent_by(),
            final(self).spec_common_name() == old(self).spec_common_name(),
            final(self).spec_directory() == old(self).spec_directory(),
    {
        self.status = Some(x);
    }

    /// The `RSVP` parameter.
    pub fn rsvp(&self) -> (r: Option<&Rsvp>)
        ensures
            match r {
                Some(x) => self.spec_rsvp() == Some(*x),
                None => self.spec_rsvp() is None,
            },
    {
        self.rsvp.as_ref()
    }

    /// Sets the `RSVP` parameter.
    pub fn set_rsvp(&mut self, x: Rsvp)
        ensures
            final(self).spec_rsvp() == Some(x),
            final(self).spec_shared() == old(self).spec_shared(),
            final(self).spec_language() == old(self).spec_language(),
            final(self).spec_calendar_user_type() == old(self).spec_calendar_user_type(),
            final(self).spec_member() == old(self).spec_member(),
            final(self).spec_status() == old(self).spec_status(),
            final(self).spec_delegatees() == old(self).spec_delegatees(),
            final(self).spec_delegators() == old(self).spec_delegators(),
            final(self).spec_sent_by() == old(self).spec_sent_by(),
            final(self).spec_common_name() == old(self).spec_common_name(),
            final(self).spec_directory() == old(self).spec_directory(),
    {
        self.rsvp = Some(x);
    }

    /// The `DELEGATED-TO` parameter.
    pub fn delegatees(&self) -> (r: Option<&Delegatees>)
        ensures
            match r {
                Some(x) => self.spec_delegatees() == Some(*x),
                None => self.spec_delegatees() is None,
            },
    {
        self.delegatees.as_ref()
    }

    /// Sets the `DELEGATED-TO` parameter.
    pub fn set_delegatees(&mut self, x: Delegatees)
        ensures
            final(self).spec_delegatees() == Some(x),
            final(self).spec_shared() == old(self).spec_shared(),
            final(self).spec_language() == old(self).spec_language(),
            final(self).spec_calendar_user_type() == old(self).spec_calendar_user_type(),
            final(self).spec_member() == old(self).spec_member(),
            final(self).spec_status() == old(self).spec_status(),
            final(self).spec_rsvp() == old(self).spec_rsvp(),
            final(self).spec_delegators() == old(self).spec_delegators(),
            final(self).spec_sent_by() == old(self).spec_sent_by(),
            final(self).spec_common_name() == old(self).spec_common_name(),
            final(self).spec_directory() == old(self).spec_directory(),
    {
        self.delegatees = Some(x);
    }

    /// The `DELEGATED-FROM` parameter.
    pub fn delegators(&self) -> (r: Option<&Delegators>)
        ensures
            match r {
                Some(x) => self.spec_delegators() == Some(*x),
                None => self.spec_delegators() is None,
            },
    {
        self.delegators.as_ref()
    }

    /// Sets the `DELEGATED-FROM` parameter.
    pub fn set_delegators(&mut self, x: Delegators)
        ensures
            final(self).spec_delegators() == Some(x),
            final(self).spec_shared() == old(self).spec_shared(),
            final(self).spec_language() == old(self).spec_language(),
            final(self).spec_calendar_user_type() == old(self).spec_calendar_user_type(),
            final(self).spec_member() == old(self).spec_member(),
            final(self).spec_status() == old(self).spec_status(),
            final(self).spec_rsvp() == old(self).spec_rsvp(),
            final(self).spec_delegatees() == old(self).spec_delegatees(),
            final(self).spec_sent_by() == old(self).spec_sent_by(),
            final(self).spec_common_name() == old(self).spec_common_name(),
            final(self).spec_directory() == old(self).spec_directory(),
    {
        self.delegators = Some(x);
    }

    /// The `SENT-BY` parameter.
    pub fn sent_by(&self) -> (r: Option<&SentBy>)
        ensures
            match r {
                Some(x) => self.spec_sent_by() == Some(*x),
                None => self.spec_sent_by() is None,
            },
    {
        self.sent_by.as_ref()
    }

    /// Sets the `SENT-BY` parameter.
    pub fn set_sent_by(&mut self, x: SentBy)
        ensures
            final(self).spec_sent_by() == Some(x),
            final(self).spec_shared() == old(self).spec_shared(),
            final(self).spec_language() == old(self).spec_language(),
            final(self).spec_calendar_user_type() == old(self).spec_calendar_user_type(),
            final(self).spec_member() == old(self).spec_member(),
            final(self).spec_status() == old(self).spec_status(),
            final(self).spec_rsvp() == old(self).spec_rsvp(),
            final(self).spec_delegatees() == old(self).spec_delegatees(),
            final(self).spec_delegators() == old(self).spec_delegators(),
            final(self).spec_common_name() == old(self).spec_common_name(),
            final(self).spec_directory() == old(self).spec_directory(),
    {
        self.sent_by = Some(x);
    }

    /// The `CN` parameter.
    pub fn common_name(&self) -> (r: Option<&CommonName>)
        ensures
            match r {
                Some(x) => self.spec_common_name() == Some(*x),
                None => self.spec_common_name() is None,
            },
    {
        self.common_name.as_ref()
    }

    /// Sets the `CN` parameter.
    pub fn set_common_name(&mut self, x: CommonName)
        ensures
            final(self).spec_common_name() == Some(x),
            final(self).spec_shared() == old(self).spec_shared(),
            final(self).spec_language() == old(self).spec_language(),
            final(self).spec_calendar_user_type() == old(self).spec_calendar_user_type(),
            final(self).spec_member() == old(self).spec_member(),
            final(self).spec_status() == old(self).spec_status(),
            final(self).spec_rsvp() == old(self).spec_rsvp(),
            final(self).spec_delegatees() == old(self).spec_delegatees(),
            final(self).spec_delegators() == old(self).spec_delegators(),
            final(self).spec_sent_by() == old(self).spec_sent_by(),
            final(self).spec_directory() == old(self).spec_directory(),
    {
        self.common_name = Some(x);
    }

    /// The `DIR` parameter.
    pub fn directory(&self) -> (r: Option<&DirectoryEntryReference>)
        ensures
            match r {
                Some(x) => self.spec_directory() == Some(*x),
                None => self.spec_directory() is None,
            },
    {
        self.directory.as_ref()
    }

    /// Sets the `DIR` parameter.
    pub fn set_directory(&mut self, x: DirectoryEntryReference)
        ensures
            final(self).spec_directory() == Some(x),
            final(self).spec_shared() == old(self).spec_shared(),
            final(self).spec_language() == old(self).spec_language(),
            final(self).spec_calendar_user_type() == old(self).spec_calendar_user_type(),
            final(self).spec_member() == old(self).spec_member(),
            final(self).spec_status() == old(self).spec_status(),
            final(self).spec_rsvp() == old(self).spec_rsvp(),
            final(self).spec_delegatees() == old(self).spec_delegatees(),
            final(self).spec_delegators() == old(self).spec_delegators(),
            final(self).spec_sent_by() == old(self).spec_sent_by(),
            final(self).spec_common_name() == old(self).spec_common_name(),
    {
        self.directory = Some(x);
    }

    /// How the parameters are written: each modeled one that is set, then
    /// the kept ones.
    pub open spec fn ical(&self) -> Seq<u8> {
        self.language_text() + self.calendar_user_type_text() + self.member_text() + self.status_text() + self.rsvp_text() + self.delegatees_text() + self.delegators_text() + self.sent_by_text() + self.common_name_text() + self.directory_text() + self.spec_shared().ical()
    }

    /// The written parameters are valid UTF-8.
    pub proof fn lemma_ical_valid(&self)
        ensures
            valid_utf8(self.ical()),
    {
        self.spec_shared().lemma_ical_valid();
        let mut acc: Seq<u8> = seq![];
        assert(valid_utf8(acc));
        let part = self.language_text();
        if let Some(x) = self.spec_language() {
            x.lemma_ical_valid();
            vstd::utf8::encode_utf8_valid_utf8(";LANGUAGE="@);
            vstd::utf8::valid_utf8_concat(";LANGUAGE=".spec_bytes(), x.ical());
        }
        vstd::utf8::valid_utf8_concat(acc, part);
        acc = acc + part;
        let part = self.calendar_user_type_text();
        if let Some(x) = self.spec_calendar_user_type() {
            x.lemma_ical_valid();
            vstd::utf8::encode_utf8_valid_utf8(";CUTYPE="@);
            vstd::utf8::valid_utf8_concat(";CUTYPE=".spec_bytes(), x.ical());
        }
        vstd::utf8::valid_utf8_concat(acc, part);
        acc = acc + part;
        let part = self.member_text();
        if let Some(x) = self.spec_member() {
            x.lemma_ical_valid();
            vstd::utf8::encode_utf8_valid_utf8(";MEMBER="@);
            vstd::utf8::valid_utf8_concat(";MEMBER=".spec_bytes(), x.ical());
        }
        vstd::utf8::valid_utf8_concat(acc, part);
        acc = acc + part;
        let part = self.status_text();
        if let Some(x) = self.spec_status() {
            x.lemma_ical_valid();
            vstd::utf8::encode_utf8_valid_utf8(";PARTSTAT="@);
            vstd::utf8::valid_utf8_concat(";PARTSTAT=".spec_bytes(), x.ical());
        }
        vstd::utf8::valid_utf8_concat(acc, part);
        acc = acc + part;
        let part = self.rsvp_text();
        if let Some(x) = self.spec_rsvp() {
            x.lemma_ical_valid();
            vstd::utf8::encode_utf8_valid_utf8(";RSVP="@);
            vstd::utf8::valid_utf8_concat(";RSVP=".spec_bytes(), x.ical());
        }
        vstd::utf8::valid_utf8_concat(acc, part);
        acc = acc + part;
        let part = self.delegatees_text();
        if let Some(x) = self.spec_delegatees() {
            x.lemma_ical_valid();
            vstd::utf8::encode_utf8_valid_utf8(";DELEGATED-TO="@);
            vstd::utf8::valid_utf8_concat(";DELEGATED-TO=".spec_bytes(), x.ical());
        }
        vstd::utf8::valid_utf8_concat(acc, part);
        acc = acc + part;
        let part = self.delegators_text();
        if let Some(x) = self.spec_delegators() {
            x.lemma_ical_valid();
            vstd::utf8::encode_utf8_valid_utf8(";DELEGATED-FROM="@);
            vstd::utf8::valid_utf8_concat(";DELEGATED-FROM=".spec_bytes(), x.ical());
        }
        vstd::utf8::valid_utf8_concat(acc, part);
        acc = acc + part;
        let part = self.sent_by_text();
        if let Some(x) = self.spec_sent_by() {
            x.lemma_ical_valid();
            vstd::utf8::encode_utf8_valid_utf8(";SENT-BY="@);
            vstd::utf8::valid_utf8_concat(";SENT-BY=".spec_bytes(), x.ical());
        }
        vstd::utf8::valid_utf8_concat(acc, part);
        acc = acc + part;
        let part = self.common_name_text();
        if let Some(x) = self.spec_common_name() {
            x.lemma_ical_valid();
            vstd::utf8::encode_utf8_valid_utf8(";CN="@);
            vstd::utf8::valid_utf8_concat(";CN=".spec_bytes(), x.ical());
        }
        vstd::utf8::valid_utf8_concat(acc, part);
        acc = acc + part;
        let part = self.directory_text();
        if let Some(x) = self.spec_directory() {
            x.lemma_ical_valid();
            vstd::utf8::encode_utf8_valid_utf8(";DIR="@);
            vstd::utf8::valid_utf8_concat(";DIR=".spec_bytes(), x.ical());
        }
        vstd::utf8::valid_utf8_concat(acc, part);
        acc = acc + part;
        vstd::utf8::valid_utf8_concat(acc, self.spec_shared().ical());
        assert(acc + self.spec_shared().ical() =~= self.ical());
    }

    /// The `LANGUAGE` parameter as written, when it is set.
    pub open spec fn language_text(&self) -> Seq<u8> {
        match self.spec_language() {
            Some(x) => ";LANGUAGE=".spec_bytes() + x.ical(),
            None => seq![],
        }
    }

    fn write_language(&self, out: &mut Vec<u8>)
        ensures
            final(out)@ == old(out)@ + self.language_text(),
    {
        if let Some(x) = &self.language {
            append_str(out, ";LANGUAGE=");
            x.write_to(out);
        }
    }

    /// The `CUTYPE` parameter as written, when it is set.
    pub open spec fn calendar_user_type_text(&self) -> Seq<u8> {
        match self.spec_calendar_user_type() {
            Some(x) => ";CUTYPE=".spec_bytes() + x.ical(),
            None => seq![],
        }
    }

    fn write_calendar_user_type(&self, out: &mut Vec<u8>)
        ensures
            final(out)@ == old(out)@ + self.calendar_user_type_text(),
    {
        if let Some(x) = &self.calendar_user_type {
            append_str(out, ";CUTYPE=");
            x.write_to(out);
        }
    }

    /// The `MEMBER` parameter as written, when it is set.
    pub open spec fn member_text(&self) -> Seq<u8> {
        match self.spec_member() {
            Some(x) => ";MEMBER=".spec_bytes() + x.ical(),
            None => seq![],
        }
    }

    fn write_member(&self, out: &mut Vec<u8>)
        ensures
            final(out)@ == old(out)@ + self.member_text(),
    {
        if let Some(x) = &self.member {
            append_str(out, ";MEMBER=");
            x.write_to(out);
        }
    }

    /// The `PARTSTAT` parameter as written, when it is set.
    pub open spec fn status_text(&self) -> Seq<u8> {
        match self.spec_status() {
            Some(x) => ";PARTSTAT=".spec_bytes() + x.ical(),
            None => seq![],
        }
    }

    fn write_status(&self, out: &mut Vec<u8>)
        ensures
            final(out)@ == old(out)@ + self.status_text(),
    {
        if let Some(x) = &self.status {
            append_str(out, ";PARTSTAT=");
            x.write_to(out);
        }
    }

    /// The `RSVP` parameter as written, when it is set.
    pub open spec fn rsvp_text(&self) -> Seq<u8> {
        match self.spec_rsvp() {
            Some(x) => ";RSVP=".spec_bytes() + x.ical(),
            None => seq![],
        }
    }

    fn write_rsvp(&self, out: &mut Vec<u8>)
        ensures
            final(out)@ == old(out)@ + self.rsvp_text(),
    {
        if let Some(x) = &self.rsvp {
            append_str(out, ";RSVP=");
            x.write_to(out);
        }
    }

    /// The `DELEGATED-TO` parameter as written, when it is set.
    pub open spec fn delegatees_text(&self) -> Seq<u8> {
        match self.spec_delegatees() {
            Some(x) => ";DELEGATED-TO=".spec_bytes() + x.ical(),
            None => seq![],
        }
    }

    fn write_delegatees(&self, out: &mut Vec<u8>)
        ensures
            final(out)@ == old(out)@ + self.delegatees_text(),
    {
        if let Some(x) = &self.delegatees {
            append_str(out, ";DELEGATED-TO=");
            x.write_to(out);
        }
    }

    /// The `DELEGATED-FROM` parameter as written, when it is set.
    pub open spec fn delegators_text(&self) -> Seq<u8> {
        match self.spec_delegators() {
            Some(x) => ";DELEGATED-FROM=".spec_bytes() + x.ical(),
            None => seq![],
        }
    }

    fn write_delegators(&self, out: &mut Vec<u8>)
        ensures
            final(out)@ == old(out)@ + self.delegators_text(),
    {
        if let Some(x) = &self.delegators {
            append_str(out, ";DELEGATED-FROM=");
            x.write_to(out);
        }
    }

    /// The `SENT-BY` parameter as written, when it is set.
    pub open spec fn sent_by_text(&self) -> Seq<u8> {
        match self.spec_sent_by() {
            Some(x) => ";SENT-BY=".spec_bytes() + x.ical(),
            None => seq![],
        }
    }

    fn write_sent_by(&self, out: &mut Vec<u8>)
        ensures
            final(out)@ == old(out)@ + self.sent_by_text(),
    {
        if let Some(x) = &self.sent_by {
            append_str(out, ";SENT-BY=");
            x.write_to(out);
        }
    }

    /// The `CN` parameter as written, when it is set.
    pub open spec fn common_name_text(&self) -> Seq<u8> {
        match self.spec_common_name() {
            Some(x) => ";CN=".spec_bytes() + x.ical(),
            None => seq![],
        }
    }

    fn write_common_name(&self, out: &mut Vec<u8>)
        ensures
            final(out)@ == old(out)@ + self.common_name_text(),
    {
        if let Some(x) = &self.common_name {
            append_str(out, ";CN=");
            x.write_to(out);
        }
    }

    /// The `DIR` parameter as written, when it is set.
    pub open spec fn directory_text(&self) -> Seq<u8> {
        match self.spec_directory() {
            Some(x) => ";DIR=".spec_bytes() + x.ical(),
            None => seq![],
        }
    }

    fn write_directory(&self, out: &mut Vec<u8>)
        ensures
            final(out)@ == old(out)@ + self.directory_text(),
    {
        if let Some(x) = &self.directory {
            append_str(out, ";DIR=");
            x.write_to(out);
        }
    }

    /// Appends the parameters as written.
    pub fn write_to(&self, out: &mut Vec<u8>)
        ensures
            final(out)@ == old(out)@ + self.ical(),
    {
        self.write_language(out);
        self.write_calendar_user_type(out);
        self.write_member(out);
        self.write_status(out);
        self.write_rsvp(out);
        self.write_delegatees(out);
        self.write_delegators(out);
        self.write_sent_by(out);
        self.write_common_name(out);
        self.write_directory(out);
        self.shared.write_to(out);
        assert(out@ =~= old(out)@ + self.ical());
    }
}
/// A participant in a group-scheduled component (RFC 5545 §3.8.4.1).
#[derive(Debug)]
pub struct Attendee {
    value: CalendarUserAddress,
    params: AttendeeParams,
}

impl Attendee {
    /// The property's value.
    pub closed spec fn spec_value(&self) -> CalendarUserAddress {
        self.value
    }

    /// The property's parameters.
    pub closed spec fn spec_params(&self) -> AttendeeParams {
        self.params
    }

    /// Whether the rest of a content line, after the name, parses.
    pub open spec fn parses(v: Seq<u8>) -> bool {
        match first_unquoted(v, COLON) {
            Some(k) => AttendeeParams::parses(param_pieces(v.take(k))) && CalendarUserAddress::parses(v.skip(k + 1)),
            None => false,
        }
    }

    /// Whether this property is what the rest of a content line parses to.
    pub open spec fn describes(&self, v: Seq<u8>) -> bool {
        match first_unquoted(v, COLON) {
            Some(k) => self.spec_params().describes(param_pieces(v.take(k))) && CalendarUserAddress::accepts(v.skip(k + 1), self.spec_value()),
            None => false,
        }
    }

    /// Parses the rest of a content line, after the name: the parameters,
    /// `:`, the value.
    pub fn try_from(v: &[u8]) -> (r: Result<Attendee, ParseError>)
        ensures
            r is Ok <==> Attendee::parses(v@),
            r matches Ok(p) ==> p.describes(v@),
            first_unquoted(v@, COLON) is None ==> r matches Err(ParseError::Parameter { .. }),
    {
        let (head, tail) = split_remainder(v)?;
        let params = match AttendeeParams::parse(head.as_slice()) {
            Ok(p) => p,
            Err(e) => {
                return Err(ParseError::Parameters(e));
            },
        };
        let value = match CalendarUserAddress::try_from(tail.as_slice()) {
            Ok(x) => x,
            Err(e) => {
                return Err(ParseError::Value(e));
            },
        };
        Ok(Attendee { value, params })
    }

    /// The property's value.
    pub fn value(&self) -> (r: &CalendarUserAddress)
        ensures
            *r == self.spec_value(),
    {
        &self.value
    }

    /// The property's parameters.
    pub fn params(&self) -> (r: &AttendeeParams)
        ensures
            *r == self.spec_params(),
    {
        &self.params
    }
}

impl Ical for Attendee {
    /// The content line: `ATTENDEE`, the parameters, `:`, the value.
    open spec fn ical(&self) -> Seq<u8> {
        "ATTENDEE".spec_bytes() + self.spec_params().ical() + seq![COLON] + self.spec_value().ical()
    }

    proof fn lemma_ical_valid(&self) {
        self.spec_params().lemma_ical_valid();
        self.spec_value().lemma_ical_valid();
        lemma_line_valid("ATTENDEE", self.spec_params().ical(), self.spec_value().ical());
    }

    fn write_to(&self, out: &mut Vec<u8>) {
        append_str(out, "ATTENDEE");
        self.params.write_to(out);
        out.push(COLON);
        self.value.write_to(out);
        assert(out@ =~= old(out)@ + self.ical());
    }
}
/// Builds an [`Attendee`] with its parameters.
#[derive(Debug)]
pub struct AttendeeBuilder {
    value: CalendarUserAddress,
    params: AttendeeParams,
}

impl AttendeeBuilder {
    /// The value being built.
    pub closed spec fn spec_value(&self) -> CalendarUserAddress {
        self.value
    }

    /// The parameters set so far.
    pub closed spec fn spec_params(&self) -> AttendeeParams {
        self.params
    }

    /// A builder for `value`, with no parameters.
    pub fn new(value: CalendarUserAddress) -> (r: AttendeeBuilder)
        ensures
            r.spec_value() == value,
            r.spec_params().spec_language() is None,
            r.spec_params().spec_calendar_user_type() is None,
            r.spec_params().spec_member() is None,
            r.spec_params().spec_status() is None,
            r.spec_params().spec_rsvp() is None,
            r.spec_params().spec_delegatees() is None,
            r.spec_params().spec_delegators() is None,
            r.spec_params().spec_sent_by() is None,
            r.spec_params().spec_common_name() is None,
            r.spec_params().spec_directory() is None,
            r.spec_params().spec_shared().iana_bytes() == Seq::<Seq<u8>>::empty(),
            r.spec_params().spec_shared().xname_bytes() == Seq::<Seq<u8>>::empty(),
    {
        AttendeeBuilder { value, params: AttendeeParams::new() }
    }

    /// Sets the parameter.
    pub fn language(self, v: Language) -> (r: AttendeeBuilder)
        ensures
            r.spec_value() == self.spec_value(),
            r.spec_params().spec_language() == Some(v),
            r.spec_params().spec_calendar_user_type() == self.spec_params().spec_calendar_user_type(),
            r.spec_params().spec_member() == self.spec_params().spec_member(),
            r.spec_params().spec_status() == self.spec_params().spec_status(),
            r.spec_params().spec_rsvp() == self.spec_params().spec_rsvp(),
            r.spec_params().spec_delegatees() == self.spec_params().spec_delegatees(),
            r.spec_params().spec_delegators() == self.spec_params().spec_delegators(),
            r.spec_params().spec_sent_by() == self.spec_params().spec_sent_by(),
            r.spec_params().spec_common_name() == self.spec_params().spec_common_name(),
            r.spec_params().spec_directory() == self.spec_params().spec_directory(),
            r.spec_params().spec_shared() == self.spec_params().spec_shared(),
    {
        let mut b = self;
        b.params.set_language(v);
        b
    }

    /// Sets the parameter.
    pub fn calendar_user_type(self, v: CalendarUserType) -> (r: AttendeeBuilder)
        ensures
            r.spec_value() == self.spec_value(),
            r.spec_params().spec_calendar_user_type() == Some(v),
            r.spec_params().spec_language() == self.spec_params().spec_language(),
            r.spec_params().spec_member() == self.spec_params().spec_member(),
            r.spec_params().spec_status() == self.spec_params().spec_status(),
            r.spec_params().spec_rsvp() == self.spec_params().spec_rsvp(),
            r.spec_params().spec_delegatees() == self.spec_params().spec_delegatees(),
            r.spec_params().spec_delegators() == self.spec_params().spec_delegators(),
            r.spec_params().spec_sent_by() == self.spec_params().spec_sent_by(),
            r.spec_params().spec_common_name() == self.spec_params().spec_common_name(),
            r.spec_params().spec_directory() == self.spec_params().spec_directory(),
            r.spec_params().spec_shared() == self.spec_params().spec_shared(),
    {
        let mut b = self;
        b.params.set_calendar_user_type(v);
        b
    }

    /// Sets the parameter.
    pub fn member(self, v: Member) -> (r: AttendeeBuilder)
        ensures
            r.spec_value() == self.spec_value(),
            r.spec_params().spec_member() == Some(v),
            r.spec_params().spec_language() == self.spec_params().spec_language(),
            r.spec_params().spec_calendar_user_type() == self.spec_params().spec_calendar_user_type(),
            r.spec_params().spec_status() == self.spec_params().spec_status(),
            r.spec_params().spec_rsvp() == self.spec_params().spec_rsvp(),
            r.spec_params().spec_delegatees() == self.spec_params().spec_delegatees(),
            r.spec_params().spec_delegators() == self.spec_params().spec_delegators(),
            r.spec_params().spec_sent_by() == self.spec_params().spec_sent_by(),
            r.spec_params().spec_common_name() == self.spec_params().spec_common_name(),
            r.spec_params().spec_directory() == self.spec_params().spec_directory(),
            r.spec_params().spec_shared() == self.spec_params().spec_shared(),
    {
        let mut b = self;
        b.params.set_member(v);
        b
    }

    /// Sets the parameter.
    pub fn status(self, v: ParticipationStatus) -> (r: AttendeeBuilder)
        ensures
            r.spec_value() == self.spec_value(),
            r.spec_params().spec_status() == Some(v),
            r.spec_params().spec_language() == self.spec_params().spec_language(),
            r.spec_params().spec_calendar_user_type() == self.spec_params().spec_calendar_user_type(),
            r.spec_params().spec_member() == self.spec_params().spec_member(),
            r.spec_params().spec_rsvp() == self.spec_params().spec_rsvp(),
            r.spec_params().spec_delegatees() == self.spec_params().spec_delegatees(),
            r.spec_params().spec_delegators() == self.spec_params().spec_delegators(),
            r.spec_params().spec_sent_by() == self.spec_params().spec_sent_by(),
            r.spec_params().spec_common_name() == self.spec_params().spec_common_name(),
            r.spec_params().spec_directory() == self.spec_params().spec_directory(),
            r.spec_params().spec_shared() == self.spec_params().spec_shared(),
    {
        let mut b = self;
        b.params.set_status(v);
        b
    }

    /// Sets the parameter.
    pub fn rsvp(self, v: Rsvp) -> (r: AttendeeBuilder)
        ensures
            r.spec_value() == self.spec_value(),
            r.spec_params().spec_rsvp() == Some(v),
            r.spec_params().spec_language() == self.spec_params().spec_language(),
            r.spec_params().spec_calendar_user_type() == self.spec_params().spec_calendar_user_type(),
            r.spec_params().spec_member() == self.spec_params().spec_member(),
            r.spec_params().spec_status() == self.spec_params().spec_status(),
            r.spec_params().spec_delegatees() == self.spec_params().spec_delegatees(),
            r.spec_params().spec_delegators() == self.spec_params().spec_delegators(),
            r.spec_params().spec_sent_by() == self.spec_params().spec_sent_by(),
            r.spec_params().spec_common_name() == self.spec_params().spec_common_name(),
            r.spec_params().spec_directory() == self.spec_params().spec_directory(),
            r.spec_params().spec_shared() == self.spec_params().spec_shared(),
    {
        let mut b = self;
        b.params.set_rsvp(v);
        b
    }

    /// Sets the parameter.
    pub fn delegatees(self, v: Delegatees) -> (r: AttendeeBuilder)
        ensures
            r.spec_value() == self.spec_value(),
            r.spec_params().spec_delegatees() == Some(v),
            r.spec_params().spec_language() == self.spec_params().spec_language(),
            r.spec_params().spec_calendar_user_type() == self.spec_params().spec_calendar_user_type(),
            r.spec_params().spec_member() == self.spec_params().spec_member(),
            r.spec_params().spec_status() == self.spec_params().spec_status(),
            r.spec_params().spec_rsvp() == self.spec_params().spec_rsvp(),
            r.spec_params().spec_delegators() == self.spec_params().spec_delegators(),
            r.spec_params().spec_sent_by() == self.spec_params().spec_sent_by(),
            r.spec_params().spec_common_name() == self.spec_params().spec_common_name(),
            r.spec_params().spec_directory() == self.spec_params().spec_directory(),
            r.spec_params().spec_shared() == self.spec_params().spec_shared(),
    {
        let mut b = self;
        b.params.set_delegatees(v);
        b
    }

    /// Sets the parameter.
    pub fn delegators(self, v: Delegators) -> (r: AttendeeBuilder)
        ensures
            r.spec_value() == self.spec_value(),
            r.spec_params().spec_delegators() == Some(v),
            r.spec_params().spec_language() == self.spec_params().spec_language(),
            r.spec_params().spec_calendar_user_type() == self.spec_params().spec_calendar_user_type(),
            r.spec_params().spec_member() == self.spec_params().spec_member(),
            r.spec_params().spec_status() == self.spec_params().spec_status(),
            r.spec_params().spec_rsvp() == self.spec_params().spec_rsvp(),
            r.spec_params().spec_delegatees() == self.spec_params().spec_delegatees(),
            r.spec_params().spec_sent_by() == self.spec_params().spec_sent_by(),
            r.spec_params().spec_common_name() == self.spec_params().spec_common_name(),
            r.spec_params().spec_directory() == self.spec_params().spec_directory(),
            r.spec_params().spec_shared() == self.spec_params().spec_shared(),
    {
        let mut b = self;
        b.params.set_delegators(v);
        b
    }

    /// Sets the parameter.
    pub fn sent_by(self, v: SentBy) -> (r: AttendeeBuilder)
        ensures
            r.spec_value() == self.spec_value(),
            r.spec_params().spec_sent_by() == Some(v),
            r.spec_params().spec_language() == self.spec_params().spec_language(),
            r.spec_params().spec_calendar_user_type() == self.spec_params().spec_calendar_user_type(),
            r.spec_params().spec_member() == self.spec_params().spec_member(),
            r.spec_params().spec_status() == self.spec_params().spec_status(),
            r.spec_params().spec_rsvp() == self.spec_params().spec_rsvp(),
            r.spec_params().spec_delegatees() == self.spec_params().spec_delegatees(),
            r.spec_params().spec_delegators() == self.spec_params().spec_delegators(),
            r.spec_params().spec_common_name() == self.spec_params().spec_common_name(),
            r.spec_params().spec_directory() == self.spec_params().spec_directory(),
            r.spec_params().spec_shared() == self.spec_params().spec_shared(),
    {
        let mut b = self;
        b.params.set_sent_by(v);
        b
    }

    /// Sets the parameter.
    pub fn common_name(self, v: CommonName) -> (r: AttendeeBuilder)
        ensures
            r.spec_value() == self.spec_value(),
            r.spec_params().spec_common_name() == Some(v),
            r.spec_params().spec_language() == self.spec_params().spec_language(),
            r.spec_params().spec_calendar_user_type() == self.spec_params().spec_calendar_user_type(),
            r.spec_params().spec_member() == self.spec_params().spec_member(),
            r.spec_params().spec_status() == self.spec_params().spec_status(),
            r.spec_params().spec_rsvp() == self.spec_params().spec_rsvp(),
            r.spec_params().spec_delegatees() == self.spec_params().spec_delegatees(),
            r.spec_params().spec_delegators() == self.spec_params().spec_delegators(),
            r.spec_params().spec_sent_by() == self.spec_params().spec_sent_by(),
            r.spec_params().spec_directory() == self.spec_params().spec_directory(),
            r.spec_params().spec_shared() == self.spec_params().spec_shared(),
    {
        let mut b = self;
        b.params.set_common_name(v);
        b
    }

    /// Sets the parameter.
    pub fn directory(self, v: DirectoryEntryReference) -> (r: AttendeeBuilder)
        ensures
            r.spec_value() == self.spec_value(),
            r.spec_params().spec_directory() == Some(v),
            r.spec_params().spec_language() == self.spec_params().spec_language(),
            r.spec_params().spec_calendar_user_type() == self.spec_params().spec_calendar_user_type(),
            r.spec_params().spec_member() == self.spec_params().spec_member(),
            r.spec_params().spec_status() == self.spec_params().spec_status(),
            r.spec_params().spec_rsvp() == self.spec_params().spec_rsvp(),
            r.spec_params().spec_delegatees() == self.spec_params().spec_delegatees(),
            r.spec_params().spec_delegators() == self.spec_params().spec_delegators(),
            r.spec_params().spec_sent_by() == self.spec_params().spec_sent_by(),
            r.spec_params().spec_common_name() == self.spec_params().spec_common_name(),
            r.spec_params().spec_shared() == self.spec_params().spec_shared(),
    {
        let mut b = self;
        b.params.set_directory(v);
        b
    }

    /// The property.
    pub fn build(self) -> (r: Attendee)
        ensures
            r.spec_value() == self.spec_value(),
            r.spec_params() == self.spec_params(),
    {
        Attendee { value: self.value, params: self.params }
    }
}
impl Attendee {
    /// The parameter, when it is set.
    pub fn language(&self) -> (r: Option<&Language>)
        ensures
            match r {
                Some(x) => self.spec_params().spec_language() == Some(*x),
                None => self.spec_params().spec_language() is None,
            },
    {
        self.params.language()
    }

    /// The parameter, when it is set.
    pub fn calendar_user_type(&self) -> (r: Option<&CalendarUserType>)
        ensures
            match r {
                Some(x) => self.spec_params().spec_calendar_user_type() == Some(*x),
                None => self.spec_params().spec_calendar_user_type() is None,
            },
    {
        self.params.calendar_user_type()
    }

    /// The parameter, when it is set.
    pub fn member(&self) -> (r: Option<&Member>)
        ensures
            match r {
                Some(x) => self.spec_params().spec_member() == Some(*x),
                None => self.spec_params().spec_member() is None,
            },
    {
        self.params.member()
    }

    /// The parameter, when it is set.
    pub fn status(&self) -> (r: Option<&ParticipationStatus>)
        ensures
            match r {
                Some(x) => self.spec_params().spec_status() == Some(*x),
                None => self.spec_params().spec_status() is None,
            },
    {
        self.params.status()
    }

    /// The parameter, when it is set.
    pub fn rsvp(&self) -> (r: Option<&Rsvp>)
        ensures
            match r {
                Some(x) => self.spec_params().spec_rsvp() == Some(*x),
                None => self.spec_params().spec_rsvp() is None,
            },
    {
        self.params.rsvp()
    }

    /// The parameter, when it is set.
    pub fn delegatees(&self) -> (r: Option<&Delegatees>)
        ensures
            match r {
                Some(x) => self.spec_params().spec_delegatees() == Some(*x),
                None => self.spec_params().spec_delegatees() is None,
            },
    {
        self.params.delegatees()
    }

    /// The parameter, when it is set.
    pub fn delegators(&self) -> (r: Option<&Delegators>)
        ensures
            match r {
                Some(x) => self.spec_params().spec_delegators() == Some(*x),
                None => self.spec_params().spec_delegators() is None,
            },
    {
        self.params.delegators()
    }

    /// The parameter, when it is set.
    pub fn sent_by(&self) -> (r: Option<&SentBy>)
        ensures
            match r {
                Some(x) => self.spec_params().spec_sent_by() == Some(*x),
                None => self.spec_params().spec_sent_by() is None,
            },
    {
        self.params.sent_by()
    }

    /// The parameter, when it is set.
    pub fn common_name(&self) -> (r: Option<&CommonName>)
        ensures
            match r {
                Some(x) => self.spec_params().spec_common_name() == Some(*x),
                None => self.spec_params().spec_common_name() is None,
            },
    {
        self.params.common_name()
    }

    /// The parameter, when it is set.
    pub fn directory(&self) -> (r: Option<&DirectoryEntryReference>)
        ensures
            match r {
                Some(x) => self.spec_params().spec_directory() == Some(*x),
                None => self.spec_params().spec_directory() is None,
            },
    {
        self.params.directory()
    }

}
/// Contact information for a component (RFC 5545 §3.8.4.2).
#[derive(Debug)]
pub struct Contact {
    value: Text,
    params: AltrepLanguageParams,
}

impl Contact {
    /// The property's value.
    pub closed spec fn spec_value(&self) -> Text {
        self.value
    }

    /// The property's parameters.
    pub closed spec fn spec_params(&self) -> AltrepLanguageParams {
        self.params
    }

    /// Whether the rest of a content line, after the name, parses.
    pub open spec fn parses(v: Seq<u8>) -> bool {
        match first_unquoted(v, COLON) {
            Some(k) => AltrepLanguageParams::parses(param_pieces(v.take(k))) && Text::parses(v.skip(k + 1)),
            None => false,
        }
    }

    /// Whether this property is what the rest of a content line parses to.
    pub open spec fn describes(&self, v: Seq<u8>) -> bool {
        match first_unquoted(v, COLON) {
            Some(k) => self.spec_params().describes(param_pieces(v.take(k))) && Text::accepts(v.skip(k + 1), self.spec_value()),
            None => false,
        }
    }

    /// Parses the rest of a content line, after the name: the parameters,
    /// `:`, the value.
    pub fn try_from(v: &[u8]) -> (r: Result<Contact, ParseError>)
        ensures
            r is Ok <==> Contact::parses(v@),
            r matches Ok(p) ==> p.describes(v@),
            first_unquoted(v@, COLON) is None ==> r matches Err(ParseError::Parameter { .. }),
    {
        let (head, tail) = split_remainder(v)?;
        let params = match AltrepLanguageParams::parse(head.as_slice()) {
            Ok(p) => p,
            Err(e) => {
                return Err(ParseError::Parameters(e));
            },
        };
        let value = match Text::try_from(tail.as_slice()) {
            Ok(x) => x,
            Err(e) => {
                return Err(ParseError::Value(e));
            },
        };
        Ok(Contact { value, params })
    }

    /// The property's value.
    pub fn value(&self) -> (r: &Text)
        ensures
            *r == self.spec_value(),
    {
        &self.value
    }

    /// The property's parameters.
    pub fn params(&self) -> (r: &AltrepLanguageParams)
        ensures
            *r == self.spec_params(),
    {
        &self.params
    }
}

impl Ical for Contact {
    /// The content line: `CONTACT`, the parameters, `:`, the value.
    open spec fn ical(&self) -> Seq<u8> {
        "CONTACT".spec_bytes() + self.spec_params().ical() + seq![COLON] + self.spec_value().ical()
    }

    proof fn lemma_ical_valid(&self) {
        self.spec_params().lemma_ical_valid();
        self.spec_value().lemma_ical_valid();
        lemma_line_valid("CONTACT", self.spec_params().ical(), self.spec_value().ical());
    }

    fn write_to(&self, out: &mut Vec<u8>) {
        append_str(out, "CONTACT");
        self.params.write_to(out);
        out.push(COLON);
        self.value.write_to(out);
        assert(out@ =~= old(out)@ + self.ical());
    }
}
/// Builds a [`Contact`] with its `ALTREP` and `LANGUAGE` parameters.
#[derive(Debug)]
pub struct ContactBuilder {
    value: Text,
    params: AltrepLanguageParams,
}

impl ContactBuilder {
    /// The value being built.
    pub closed spec fn spec_value(&self) -> Text {
        self.value
    }

    /// The parameters set so far.
    pub closed spec fn spec_params(&self) -> AltrepLanguageParams {
        self.params
    }

    /// A builder for `value`, with no parameters.
    pub fn new(value: Text) -> (r: ContactBuilder)
        ensures
            r.spec_value() == value,
            r.spec_params().spec_altrep() is None,
            r.spec_params().spec_language() is None,
            r.spec_params().spec_shared().iana_bytes() == Seq::<Seq<u8>>::empty(),
            r.spec_params().spec_shared().xname_bytes() == Seq::<Seq<u8>>::empty(),
    {
        ContactBuilder { value, params: AltrepLanguageParams::new() }
    }

    /// Sets `ALTREP`.
    pub fn altrep(self, altrep: Altrep) -> (r: ContactBuilder)
        ensures
            r.spec_value() == self.spec_value(),
            r.spec_params().spec_altrep() == Some(altrep),
            r.spec_params().spec_language() == self.spec_params().spec_language(),
            r.spec_params().spec_shared() == self.spec_params().spec_shared(),
    {
        let mut b = self;
        b.params.set_altrep(altrep);
        b
    }

    /// Sets `LANGUAGE`.
    pub fn language(self, language: Language) -> (r: ContactBuilder)
        ensures
            r.spec_value() == self.spec_value(),
            r.spec_params().spec_language() == Some(language),
            r.spec_params().spec_altrep() == self.spec_params().spec_altrep(),
            r.spec_params().spec_shared() == self.spec_params().spec_shared(),
    {
        let mut b = self;
        b.params.set_language(language);
        b
    }

    /// The property.
    pub fn build(self) -> (r: Contact)
        ensures
            r.spec_value() == self.spec_value(),
            r.spec_params() == self.spec_params(),
    {
        Contact { value: self.value, params: self.params }
    }
}

/// The parameters of an `ORGANIZER` property.
#[derive(Debug)]
pub struct OrgParams {
    shared: SharedParams,
    language: Option<Language>,
    common_name: Option<CommonName>,
    directory: Option<DirectoryEntryReference>,
    sent_by: Option<SentBy>,
}

impl OrgParams {
    /// The names of the parameters modeled here.
    pub open spec fn keys() -> Seq<Seq<u8>> {
        seq!["LANGUAGE".spec_bytes(), "CN".spec_bytes(), "DIR".spec_bytes(), "SENT-BY".spec_bytes()]
    }

    /// Whether the segments `ps` parse: every unmodeled one can be kept and
    /// every modeled one holds a value of its parameter.
    pub open spec fn parses(ps: Seq<Seq<u8>>) -> bool {
        &&& kept(unmodeled(ps, OrgParams::keys())) is Some
        &&& forall|i: int|
            0 <= i < ps.len() && named(#[trigger] ps[i], "LANGUAGE".spec_bytes()) ==> Language::parses(
                seg_value(ps[i]),
            )
        &&& forall|i: int|
            0 <= i < ps.len() && named(#[trigger] ps[i], "CN".spec_bytes()) ==> CommonName::parses(
                seg_value(ps[i]),
            )
        &&& forall|i: int|
            0 <= i < ps.len() && named(#[trigger] ps[i], "DIR".spec_bytes()) ==> DirectoryEntryReference::parses(
                seg_value(ps[i]),
            )
        &&& forall|i: int|
            0 <= i < ps.len() && named(#[trigger] ps[i], "SENT-BY".spec_bytes()) ==> SentBy::parses(
                seg_value(ps[i]),
            )
    }

    /// The unmodeled parameters.
    pub closed spec fn spec_shared(&self) -> SharedParams {
        self.shared
    }

    /// The `LANGUAGE` parameter.
    pub closed spec fn spec_language(&self) -> Option<Language> {
        self.language
    }

    /// The `CN` parameter.
    pub closed spec fn spec_common_name(&self) -> Option<CommonName> {
        self.common_name
    }

    /// The `DIR` parameter.
    pub closed spec fn spec_directory(&self) -> Option<DirectoryEntryReference> {
        self.directory
    }

    /// The `SENT-BY` parameter.
    pub closed spec fn spec_sent_by(&self) -> Option<SentBy> {
        self.sent_by
    }

    /// Whether these parameters are what the segments `ps` parse to: each
    /// modeled parameter from its last occurrence, the rest kept in order.
    pub open spec fn describes(&self, ps: Seq<Seq<u8>>) -> bool {
        &&& kept(unmodeled(ps, OrgParams::keys())) == Some(
            (self.spec_shared().iana_bytes(), self.spec_shared().xname_bytes()),
        )
        &&& match last_value(ps, "LANGUAGE".spec_bytes()) {
            Some(v) => self.spec_language() matches Some(x) && Language::accepts(v, x),
            None => self.spec_language() is None,
        }
        &&& match last_value(ps, "CN".spec_bytes()) {
            Some(v) => self.spec_common_name() matches Some(x) && CommonName::accepts(v, x),
            None => self.spec_common_name() is None,
        }
        &&& match last_value(ps, "DIR".spec_bytes()) {
            Some(v) => self.spec_directory() matches Some(x) && DirectoryEntryReference::accepts(v, x),
            None => self.spec_directory() is None,
        }
        &&& match last_value(ps, "SENT-BY".spec_bytes()) {
            Some(v) => self.spec_sent_by() matches Some(x) && SentBy::accepts(v, x),
            None => self.spec_sent_by() is None,
        }
    }

    /// No parameters.
    pub fn new() -> (r: OrgParams)
        ensures
            r.spec_shared().iana_bytes() == Seq::<Seq<u8>>::empty(),
            r.spec_shared().xname_bytes() == Seq::<Seq<u8>>::empty(),
            r.spec_language() is None,
            r.spec_common_name() is None,
            r.spec_directory() is None,
            r.spec_sent_by() is None,
    {
        OrgParams { shared: SharedParams::new(), language: None, common_name: None, directory: None, sent_by: None }
    }

    /// The names modeled here differ from one another.
    proof fn lemma_keys_distinct()
        ensures
            "LANGUAGE".spec_bytes() != "CN".spec_bytes(),
            "LANGUAGE".spec_bytes() != "DIR".spec_bytes(),
            "LANGUAGE".spec_bytes() != "SENT-BY".spec_bytes(),
            "CN".spec_bytes() != "DIR".spec_bytes(),
            "CN".spec_bytes() != "SENT-BY".spec_bytes(),
            "DIR".spec_bytes() != "SENT-BY".spec_bytes(),
    {
        reveal_strlit("LANGUAGE");
        reveal_strlit("CN");
        reveal_strlit("DIR");
        reveal_strlit("SENT-BY");
        lemma_str_bytes_differ("LANGUAGE", "CN", 0);
        lemma_str_bytes_differ("LANGUAGE", "DIR", 0);
        lemma_str_bytes_differ("LANGUAGE", "SENT-BY", 0);
        lemma_str_bytes_differ("CN", "DIR", 0);
        lemma_str_bytes_differ("CN", "SENT-BY", 0);
        lemma_str_bytes_differ("DIR", "SENT-BY", 0);
    }

    /// Whether one segment can be taken: a modeled one must hold a value of
    /// its parameter, any other must be keepable.
    pub open spec fn segment_ok(seg: Seq<u8>) -> bool {
        if named(seg, "LANGUAGE".spec_bytes()) {
            Language::parses(seg_value(seg))
        } else if named(seg, "CN".spec_bytes()) {
            CommonName::parses(seg_value(seg))
        } else if named(seg, "DIR".spec_bytes()) {
            DirectoryEntryReference::parses(seg_value(seg))
        } else if named(seg, "SENT-BY".spec_bytes()) {
            SentBy::parses(seg_value(seg))
        } else {
            keepable(seg)
        }
    }

    /// How taking the segment `seg` changes the parameters `p` into `q`.
    pub open spec fn segment_step(p: OrgParams, q: OrgParams, seg: Seq<u8>) -> bool {
        &&& if named(seg, "LANGUAGE".spec_bytes()) {
            q.spec_language() matches Some(x) && Language::accepts(seg_value(seg), x)
        } else {
            q.spec_language() == p.spec_language()
        }
        &&& if named(seg, "CN".spec_bytes()) {
            q.spec_common_name() matches Some(x) && CommonName::accepts(seg_value(seg), x)
        } else {
            q.spec_common_name() == p.spec_common_name()
        }
        &&& if named(seg, "DIR".spec_bytes()) {
            q.spec_directory() matches Some(x) && DirectoryEntryReference::accepts(seg_value(seg), x)
        } else {
            q.spec_directory() == p.spec_directory()
        }
        &&& if named(seg, "SENT-BY".spec_bytes()) {
            q.spec_sent_by() matches Some(x) && SentBy::accepts(seg_value(seg), x)
        } else {
            q.spec_sent_by() == p.spec_sent_by()
        }
        &&& if modeled(seg, OrgParams::keys()) {
            q.spec_shared() == p.spec_shared()
        } else {
            kept_step(p.spec_shared().iana_bytes(), p.spec_shared().xname_bytes(), seg) == Some(
                (q.spec_shared().iana_bytes(), q.spec_shared().xname_bytes()),
            )
        }
    }

    /// Takes one `NAME=VALUE` segment.
    fn take_segment(&mut self, seg: &[u8]) -> (r: Result<(), ParameterError>)
        ensures
            r is Ok <==> OrgParams::segment_ok(seg@),
            r is Ok ==> OrgParams::segment_step(*old(self), *final(self), seg@),
    {
        proof {
            OrgParams::lemma_keys_distinct();
            assert(OrgParams::keys()[0] == "LANGUAGE".spec_bytes());
            assert(OrgParams::keys()[1] == "CN".spec_bytes());
            assert(OrgParams::keys()[2] == "DIR".spec_bytes());
            assert(OrgParams::keys()[3] == "SENT-BY".spec_bytes());
        }
        let name = match param_name(seg) {
            Ok(n) => n,
            Err(e) => {
                return Err(e);
            },
        };
        let key = to_upper(name.as_slice());
        if eq_str(key.as_slice(), "LANGUAGE") {
            let value = param_value(seg)?;
            match Language::try_from(value.as_slice()) {
                Ok(x) => {
                    self.language = Some(x);
                    Ok(())
                },
                Err(e) => Err(ParameterError::Param(e)),
            }
        } else if eq_str(key.as_slice(), "CN") {
            let value = param_value(seg)?;
            match CommonName::try_from(value.as_slice()) {
                Ok(x) => {
                    self.common_name = Some(x);
                    Ok(())
                },
                Err(e) => Err(ParameterError::Param(e)),
            }
        } else if eq_str(key.as_slice(), "DIR") {
            let value = param_value(seg)?;
            match DirectoryEntryReference::try_from(value.as_slice()) {
                Ok(x) => {
                    self.directory = Some(x);
                    Ok(())
                },
                Err(e) => Err(ParameterError::Param(e)),
            }
        } else if eq_str(key.as_slice(), "SENT-BY") {
            let value = param_value(seg)?;
            match SentBy::try_from(value.as_slice()) {
                Ok(x) => {
                    self.sent_by = Some(x);
                    Ok(())
                },
                Err(e) => Err(ParameterError::Param(e)),
            }
        } else {
            assert(!modeled(seg@, OrgParams::keys()));
            self.shared.absorb(seg)
        }
    }

    /// Parses a parameter list.
    pub fn parse(v: &[u8]) -> (r: Result<OrgParams, ParameterError>)
        ensures
            r is Ok <==> OrgParams::parses(param_pieces(v@)),
            r matches Ok(p) ==> p.describes(param_pieces(v@)),
    {
        let segs = param_segments(v);
        let ghost ps = vec_views(segs@);
        let ghost keys = OrgParams::keys();
        let mut p = OrgParams::new();
        let mut i: usize = 0;
        assert(ps.take(0) =~= Seq::<Seq<u8>>::empty());
        while i < segs.len()
            invariant
                i <= segs.len(),
                ps == vec_views(segs@),
                ps == param_pieces(v@),
                keys == OrgParams::keys(),
                kept(unmodeled(ps.take(i as int), keys)) == Some(
                    (p.spec_shared().iana_bytes(), p.spec_shared().xname_bytes()),
                ),
                forall|j: int|
                    0 <= j < i && named(#[trigger] ps[j], "LANGUAGE".spec_bytes()) ==> Language::parses(
                        seg_value(ps[j]),
                    ),
                match last_value(ps.take(i as int), "LANGUAGE".spec_bytes()) {
                    Some(w) => p.spec_language() matches Some(x) && Language::accepts(w, x),
                    None => p.spec_language() is None,
                },
                forall|j: int|
                    0 <= j < i && named(#[trigger] ps[j], "CN".spec_bytes()) ==> CommonName::parses(
                        seg_value(ps[j]),
                    ),
                match last_value(ps.take(i as int), "CN".spec_bytes()) {
                    Some(w) => p.spec_common_name() matches Some(x) && CommonName::accepts(w, x),
                    None => p.spec_common_name() is None,
                },
                forall|j: int|
                    0 <= j < i && named(#[trigger] ps[j], "DIR".spec_bytes()) ==> DirectoryEntryReference::parses(
                        seg_value(ps[j]),
                    ),
                match last_value(ps.take(i as int), "DIR".spec_bytes()) {
                    Some(w) => p.spec_directory() matches Some(x) && DirectoryEntryReference::accepts(w, x),
                    None => p.spec_directory() is None,
                },
                forall|j: int|
                    0 <= j < i && named(#[trigger] ps[j], "SENT-BY".spec_bytes()) ==> SentBy::parses(
                        seg_value(ps[j]),
                    ),
                match last_value(ps.take(i as int), "SENT-BY".spec_bytes()) {
                    Some(w) => p.spec_sent_by() matches Some(x) && SentBy::accepts(w, x),
                    None => p.spec_sent_by() is None,
                },
            decreases segs.len() - i,
        {
            let seg = segs[i].as_slice();
            proof {
                lemma_step(ps, keys, i as int);
                assert(seg@ == ps[i as int]);
                OrgParams::lemma_keys_distinct();
                assert(keys[0] == "LANGUAGE".spec_bytes());
                assert(keys[1] == "CN".spec_bytes());
                assert(keys[2] == "DIR".spec_bytes());
                assert(keys[3] == "SENT-BY".spec_bytes());
                lemma_kept_push(unmodeled(ps.take(i as int), keys), ps[i as int]);
            }
            match p.take_segment(seg) {
                Ok(()) => {},
                Err(e) => {
                    proof {
                        if !modeled(ps[i as int], keys) {
                            lemma_kept_unmodeled_fails(ps, keys, i + 1, ps.len() as int);
                        }
                        assert(ps.take(ps.len() as int) =~= ps);
                    }
                    return Err(e);
                },
            }
            i += 1;
        }
        assert(ps.take(segs.len() as int) =~= ps);
        Ok(p)
    }

    /// The unmodeled parameters.
    pub fn shared(&self) -> (r: &SharedParams)
        ensures
            *r == self.spec_shared(),
    {
        &self.shared
    }

    /// The `LANGUAGE` parameter.
    pub fn language(&self) -> (r: Option<&Language>)
        ensures
            match r {
                Some(x) => self.spec_language() == Some(*x),
                None => self.spec_language() is None,
            },
    {
        self.language.as_ref()
    }

    /// Sets the `LANGUAGE` parameter.
    pub fn set_language(&mut self, x: Language)
        ensures
            final(self).spec_language() == Some(x),
            final(self).spec_shared() == old(self).spec_shared(),
            final(self).spec_common_name() == old(self).spec_common_name(),
            final(self).spec_directory() == old(self).spec_directory(),
            final(self).spec_sent_by() == old(self).spec_sent_by(),
    {
        self.language = Some(x);
    }

    /// The `CN` parameter.
    pub fn common_name(&self) -> (r: Option<&CommonName>)
        ensures
            match r {
                Some(x) => self.spec_common_name() == Some(*x),
                None => self.spec_common_name() is None,
            },
    {
        self.common_name.as_ref()
    }

    /// Sets the `CN` parameter.
    pub fn set_common_name(&mut self, x: CommonName)
        ensures
            final(self).spec_common_name() == Some(x),
            final(self).spec_shared() == old(self).spec_shared(),
            final(self).spec_language() == old(self).spec_language(),
            final(self).spec_directory() == old(self).spec_directory(),
            final(self).spec_sent_by() == old(self).spec_sent_by(),
    {
        self.common_name = Some(x);
    }

    /// The `DIR` parameter.
    pub fn directory(&self) -> (r: Option<&DirectoryEntryReference>)
        ensures
            match r {
                Some(x) => self.spec_directory() == Some(*x),
                None => self.spec_directory() is None,
            },
    {
        self.directory.as_ref()
    }

    /// Sets the `DIR` parameter.
    pub fn set_directory(&mut self, x: DirectoryEntryReference)
        ensures
            final(self).spec_directory() == Some(x),
            final(self).spec_shared() == old(self).spec_shared(),
            final(self).spec_language() == old(self).spec_language(),
            final(self).spec_common_name() == old(self).spec_common_name(),
            final(self).spec_sent_by() == old(self).spec_sent_by(),
    {
        self.directory = Some(x);
    }

    /// The `SENT-BY` parameter.
    pub fn sent_by(&self) -> (r: Option<&SentBy>)
        ensures
            match r {
                Some(x) => self.spec_sent_by() == Some(*x),
                None => self.spec_sent_by() is None,
            },
    {
        self.sent_by.as_ref()
    }

    /// Sets the `SENT-BY` parameter.
    pub fn set_sent_by(&mut self, x: SentBy)
        ensures
            final(self).spec_sent_by() == Some(x),
            final(self).spec_shared() == old(self).spec_shared(),
            final(self).spec_language() == old(self).spec_language(),
            final(self).spec_common_name() == old(self).spec_common_name(),
            final(self).spec_directory() == old(self).spec_directory(),
    {
        self.sent_by = Some(x);
    }

    /// How the parameters are written: each modeled one that is set, then
    /// the kept ones.
    pub open spec fn ical(&self) -> Seq<u8> {
        self.language_text() + self.common_name_text() + self.directory_text() + self.sent_by_text() + self.spec_shared().ical()
    }

    /// The written parameters are valid UTF-8.
    pub proof fn lemma_ical_valid(&self)
        ensures
            valid_utf8(self.ical()),
    {
        self.spec_shared().lemma_ical_valid();
        let mut acc: Seq<u8> = seq![];
        assert(valid_utf8(acc));
        let part = self.language_text();
        if let Some(x) = self.spec_language() {
            x.lemma_ical_valid();
            vstd::utf8::encode_utf8_valid_utf8(";LANGUAGE="@);
            vstd::utf8::valid_utf8_concat(";LANGUAGE=".spec_bytes(), x.ical());
        }
        vstd::utf8::valid_utf8_concat(acc, part);
        acc = acc + part;
        let part = self.common_name_text();
        if let Some(x) = self.spec_common_name() {
            x.lemma_ical_valid();
            vstd::utf8::encode_utf8_valid_utf8(";CN="@);
            vstd::utf8::valid_utf8_concat(";CN=".spec_bytes(), x.ical());
        }
        vstd::utf8::valid_utf8_concat(acc, part);
        acc = acc + part;
        let part = self.directory_text();
        if let Some(x) = self.spec_directory() {
            x.lemma_ical_valid();
            vstd::utf8::encode_utf8_valid_utf8(";DIR="@);
            vstd::utf8::valid_utf8_concat(";DIR=".spec_bytes(), x.ical());
        }
        vstd::utf8::valid_utf8_concat(acc, part);
        acc = acc + part;
        let part = self.sent_by_text();
        if let Some(x) = self.spec_sent_by() {
            x.lemma_ical_valid();
            vstd::utf8::encode_utf8_valid_utf8(";SENT-BY="@);
            vstd::utf8::valid_utf8_concat(";SENT-BY=".spec_bytes(), x.ical());
        }
        vstd::utf8::valid_utf8_concat(acc, part);
        acc = acc + part;
        vstd::utf8::valid_utf8_concat(acc, self.spec_shared().ical());
        assert(acc + self.spec_shared().ical() =~= self.ical());
    }

    /// The `LANGUAGE` parameter as written, when it is set.
    pub open spec fn language_text(&self) -> Seq<u8> {
        match self.spec_language() {
            Some(x) => ";LANGUAGE=".spec_bytes() + x.ical(),
            None => seq![],
        }
    }

    fn write_language(&self, out: &mut Vec<u8>)
        ensures
            final(out)@ == old(out)@ + self.language_text(),
    {
        if let Some(x) = &self.language {
            append_str(out, ";LANGUAGE=");
            x.write_to(out);
        }
    }

    /// The `CN` parameter as written, when it is set.
    pub open spec fn common_name_text(&self) -> Seq<u8> {
        match self.spec_common_name() {
            Some(x) => ";CN=".spec_bytes() + x.ical(),
            None => seq![],
        }
    }

    fn write_common_name(&self, out: &mut Vec<u8>)
        ensures
            final(out)@ == old(out)@ + self.common_name_text(),
    {
        if let Some(x) = &self.common_name {
            append_str(out, ";CN=");
            x.write_to(out);
        }
    }

    /// The `DIR` parameter as written, when it is set.
    pub open spec fn directory_text(&self) -> Seq<u8> {
        match self.spec_directory() {
            Some(x) => ";DIR=".spec_bytes() + x.ical(),
            None => seq![],
        }
    }

    fn write_directory(&self, out: &mut Vec<u8>)
        ensures
            final(out)@ == old(out)@ + self.directory_text(),
    {
        if let Some(x) = &self.directory {
            append_str(out, ";DIR=");
            x.write_to(out);
        }
    }

    /// The `SENT-BY` parameter as written, when it is set.
    pub open spec fn sent_by_text(&self) -> Seq<u8> {
        match self.spec_sent_by() {
            Some(x) => ";SENT-BY=".spec_bytes() + x.ical(),
            None => seq![],
        }
    }

    fn write_sent_by(&self, out: &mut Vec<u8>)
        ensures
            final(out)@ == old(out)@ + self.sent_by_text(),
    {
        if let Some(x) = &self.sent_by {
            append_str(out, ";SENT-BY=");
            x.write_to(out);
        }
    }

    /// Appends the parameters as written.
    pub fn write_to(&self, out: &mut Vec<u8>)
        ensures
            final(out)@ == old(out)@ + self.ical(),
    {
        self.write_language(out);
        self.write_common_name(out);
        self.write_directory(out);
        self.write_sent_by(out);
        self.shared.write_to(out);
        assert(out@ =~= old(out)@ + self.ical());
    }
}
/// The organizer of a group-scheduled component (RFC 5545 §3.8.4.3).
#[derive(Debug)]
pub struct Organizer {
    value: CalendarUserAddress,
    params: OrgParams,
}

impl Organizer {
    /// The property's value.
    pub closed spec fn spec_value(&self) -> CalendarUserAddress {
        self.value
    }

    /// The property's parameters.
    pub closed spec fn spec_params(&self) -> OrgParams {
        self.params
    }

    /// Whether the rest of a content line, after the name, parses.
    pub open spec fn parses(v: Seq<u8>) -> bool {
        match first_unquoted(v, COLON) {
            Some(k) => OrgParams::parses(param_pieces(v.take(k))) && CalendarUserAddress::parses(v.skip(k + 1)),
            None => false,
        }
    }

    /// Whether this property is what the rest of a content line parses to.
    pub open spec fn describes(&self, v: Seq<u8>) -> bool {
        match first_unquoted(v, COLON) {
            Some(k) => self.spec_params().describes(param_pieces(v.take(k))) && CalendarUserAddress::accepts(v.skip(k + 1), self.spec_value()),
            None => false,
        }
    }

    /// Parses the rest of a content line, after the name: the parameters,
    /// `:`, the value.
    pub fn try_from(v: &[u8]) -> (r: Result<Organizer, ParseError>)
        ensures
            r is Ok <==> Organizer::parses(v@),
            r matches Ok(p) ==> p.describes(v@),
            first_unquoted(v@, COLON) is None ==> r matches Err(ParseError::Parameter { .. }),
    {
        let (head, tail) = split_remainder(v)?;
        let params = match OrgParams::parse(head.as_slice()) {
            Ok(p) => p,
            Err(e) => {
                return Err(ParseError::Parameters(e));
            },
        };
        let value = match CalendarUserAddress::try_from(tail.as_slice()) {
            Ok(x) => x,
            Err(e) => {
                return Err(ParseError::Value(e));
            },
        };
        Ok(Organizer { value, params })
    }

    /// The property's value.
    pub fn value(&self) -> (r: &CalendarUserAddress)
        ensures
            *r == self.spec_value(),
    {
        &self.value
    }

    /// The property's parameters.
    pub fn params(&self) -> (r: &OrgParams)
        ensures
            *r == self.spec_params(),
    {
        &self.params
    }
}

impl Ical for Organizer {
    /// The content line: `ORGANIZER`, the parameters, `:`, the value.
    open spec fn ical(&self) -> Seq<u8> {
        "ORGANIZER".spec_bytes() + self.spec_params().ical() + seq![COLON] + self.spec_value().ical()
    }

    proof fn lemma_ical_valid(&self) {
        self.spec_params().lemma_ical_valid();
        self.spec_value().lemma_ical_valid();
        lemma_line_valid("ORGANIZER", self.spec_params().ical(), self.spec_value().ical());
    }

    fn write_to(&self, out: &mut Vec<u8>) {
        append_str(out, "ORGANIZER");
        self.params.write_to(out);
        out.push(COLON);
        self.value.write_to(out);
        assert(out@ =~= old(out)@ + self.ical());
    }
}
/// Builds an [`Organizer`] with its parameters.
#[derive(Debug)]
pub struct OrganizerBuilder {
    value: CalendarUserAddress,
    params: OrgParams,
}

impl OrganizerBuilder {
    /// The value being built.
    pub closed spec fn spec_value(&self) -> CalendarUserAddress {
        self.value
    }

    /// The parameters set so far.
    pub closed spec fn spec_params(&self) -> OrgParams {
        self.params
    }

    /// A builder for `value`, with no parameters.
    pub fn new(value: CalendarUserAddress) -> (r: OrganizerBuilder)
        ensures
            r.spec_value() == value,
            r.spec_params().spec_language() is None,
            r.spec_params().spec_common_name() is None,
            r.spec_params().spec_directory() is None,
            r.spec_params().spec_sent_by() is None,
            r.spec_params().spec_shared().iana_bytes() == Seq::<Seq<u8>>::empty(),
            r.spec_params().spec_shared().xname_bytes() == Seq::<Seq<u8>>::empty(),
    {
        OrganizerBuilder { value, params: OrgParams::new() }
    }

    /// Sets the parameter.
    pub fn language(self, v: Language) -> (r: OrganizerBuilder)
        ensures
            r.spec_value() == self.spec_value(),
            r.spec_params().spec_language() == Some(v),
            r.spec_params().spec_common_name() == self.spec_params().spec_common_name(),
            r.spec_params().spec_directory() == self.spec_params().spec_directory(),
            r.spec_params().spec_sent_by() == self.spec_params().spec_sent_by(),
            r.spec_params().spec_shared() == self.spec_params().spec_shared(),
    {
        let mut b = self;
        b.params.set_language(v);
        b
    }

    /// Sets the parameter.
    pub fn common_name(self, v: CommonName) -> (r: OrganizerBuilder)
        ensures
            r.spec_value() == self.spec_value(),
            r.spec_params().spec_common_name() == Some(v),
            r.spec_params().spec_language() == self.spec_params().spec_language(),
            r.spec_params().spec_directory() == self.spec_params().spec_directory(),
            r.spec_params().spec_sent_by() == self.spec_params().spec_sent_by(),
            r.spec_params().spec_shared() == self.spec_params().spec_shared(),
    {
        let mut b = self;
        b.params.set_common_name(v);
        b
    }

    /// Sets the parameter.
    pub fn directory(self, v: DirectoryEntryReference) -> (r: OrganizerBuilder)
        ensures
            r.spec_value() == self.spec_value(),
            r.spec_params().spec_directory() == Some(v),
            r.spec_params().spec_language() == self.spec_params().spec_language(),
            r.spec_params().spec_common_name() == self.spec_params().spec_common_name(),
            r.spec_params().spec_sent_by() == self.spec_params().spec_sent_by(),
            r.spec_params().spec_shared() == self.spec_params().spec_shared(),
    {
        let mut b = self;
        b.params.set_directory(v);
        b
    }

    /// Sets the parameter.
    pub fn sent_by(self, v: SentBy) -> (r: OrganizerBuilder)
        ensures
            r.spec_value() == self.spec_value(),
            r.spec_params().spec_sent_by() == Some(v),
            r.spec_params().spec_language() == self.spec_params().spec_language(),
            r.spec_params().spec_common_name() == self.spec_params().spec_common_name(),
            r.spec_params().spec_directory() == self.spec_params().spec_directory(),
            r.spec_params().spec_shared() == self.spec_params().spec_shared(),
    {
        let mut b = self;
        b.params.set_sent_by(v);
        b
    }

    /// The property.
    pub fn build(self) -> (r: Organizer)
        ensures
            r.spec_value() == self.spec_value(),
            r.spec_params() == self.spec_params(),
    {
        Organizer { value: self.value, params: self.params }
    }
}
impl Organizer {
    /// The parameter, when it is set.
    pub fn language(&self) -> (r: Option<&Language>)
        ensures
            match r {
                Some(x) => self.spec_params().spec_language() == Some(*x),
                None => self.spec_params().spec_language() is None,
            },
    {
        self.params.language()
    }

    /// The parameter, when it is set.
    pub fn common_name(&self) -> (r: Option<&CommonName>)
        ensures
            match r {
                Some(x) => self.spec_params().spec_common_name() == Some(*x),
                None => self.spec_params().spec_common_name() is None,
            },
    {
        self.params.common_name()
    }

    /// The parameter, when it is set.
    pub fn directory(&self) -> (r: Option<&DirectoryEntryReference>)
        ensures
            match r {
                Some(x) => self.spec_params().spec_directory() == Some(*x),
                None => self.spec_params().spec_directory() is None,
            },
    {
        self.params.directory()
    }

    /// The parameter, when it is set.
    pub fn sent_by(&self) -> (r: Option<&SentBy>)
        ensures
            match r {
                Some(x) => self.spec_params().spec_sent_by() == Some(*x),
                None => self.spec_params().spec_sent_by() is None,
            },
    {
        self.params.sent_by()
    }

}
/// The parameters of a `RELATED-TO` property.
#[derive(Debug)]
pub struct RelatedToParams {
    shared: SharedParams,
    rt: Option<RelationshipType>,
}

impl RelatedToParams {
    /// The names of the parameters modeled here.
    pub open spec fn keys() -> Seq<Seq<u8>> {
        seq!["RELTYPE".spec_bytes()]
    }

    /// Whether the segments `ps` parse: every unmodeled one can be kept and
    /// every modeled one holds a value of its parameter.
    pub open spec fn parses(ps: Seq<Seq<u8>>) -> bool {
        &&& kept(unmodeled(ps, RelatedToParams::keys())) is Some
        &&& forall|i: int|
            0 <= i < ps.len() && named(#[trigger] ps[i], "RELTYPE".spec_bytes()) ==> RelationshipType::parses(
                seg_value(ps[i]),
            )
    }

    /// The unmodeled parameters.
    pub closed spec fn spec_shared(&self) -> SharedParams {
        self.shared
    }

    /// The `RELTYPE` parameter.
    pub closed spec fn spec_rt(&self) -> Option<RelationshipType> {
        self.rt
    }

    /// Whether these parameters are what the segments `ps` parse to: each
    /// modeled parameter from its last occurrence, the rest kept in order.
    pub open spec fn describes(&self, ps: Seq<Seq<u8>>) -> bool {
        &&& kept(unmodeled(ps, RelatedToParams::keys())) == Some(
            (self.spec_shared().iana_bytes(), self.spec_shared().xname_bytes()),
        )
        &&& match last_value(ps, "RELTYPE".spec_bytes()) {
            Some(v) => self.spec_rt() matches Some(x) && RelationshipType::accepts(v, x),
            None => self.spec_rt() is None,
        }
    }

    /// No parameters.
    pub fn new() -> (r: RelatedToParams)
        ensures
            r.spec_shared().iana_bytes() == Seq::<Seq<u8>>::empty(),
            r.spec_shared().xname_bytes() == Seq::<Seq<u8>>::empty(),
            r.spec_rt() is None,
    {
        RelatedToParams { shared: SharedParams::new(), rt: None }
    }

    /// The names modeled here differ from one another.
    proof fn lemma_keys_distinct()
        ensures
    {
        reveal_strlit("RELTYPE");
    }

    /// Whether one segment can be taken: a modeled one must hold a value of
    /// its parameter, any other must be keepable.
    pub open spec fn segment_ok(seg: Seq<u8>) -> bool {
        if named(seg, "RELTYPE".spec_bytes()) {
            RelationshipType::parses(seg_value(seg))
        } else {
            keepable(seg)
        }
    }

    /// How taking the segment `seg` changes the parameters `p` into `q`.
    pub open spec fn segment_step(p: RelatedToParams, q: RelatedToParams, seg: Seq<u8>) -> bool {
        &&& if named(seg, "RELTYPE".spec_bytes()) {
            q.spec_rt() matches Some(x) && RelationshipType::accepts(seg_value(seg), x)
        } else {
            q.spec_rt() == p.spec_rt()
        }
        &&& if modeled(seg, RelatedToParams::keys()) {
            q.spec_shared() == p.spec_shared()
        } else {
            kept_step(p.spec_shared().iana_bytes(), p.spec_shared().xname_bytes(), seg) == Some(
                (q.spec_shared().iana_bytes(), q.spec_shared().xname_bytes()),
            )
        }
    }

    /// Takes one `NAME=VALUE` segment.
    fn take_segment(&mut self, seg: &[u8]) -> (r: Result<(), ParameterError>)
        ensures
            r is Ok <==> RelatedToParams::segment_ok(seg@),
            r is Ok ==> RelatedToParams::segment_step(*old(self), *final(self), seg@),
    {
        proof {
            RelatedToParams::lemma_keys_distinct();
            assert(RelatedToParams::keys()[0] == "RELTYPE".spec_bytes());
        }
        let name = match param_name(seg) {
            Ok(n) => n,
            Err(e) => {
                return Err(e);
            },
        };
        let key = to_upper(name.as_slice());
        if eq_str(key.as_slice(), "RELTYPE") {
            let value = param_value(seg)?;
            match RelationshipType::try_from(value.as_slice()) {
                Ok(x) => {
                    self.rt = Some(x);
                    Ok(())
                },
                Err(e) => Err(ParameterError::Param(e)),
            }
        } else {
            assert(!modeled(seg@, RelatedToParams::keys()));
            self.shared.absorb(seg)
        }
    }

    /// Parses a parameter list.
    pub fn parse(v: &[u8]) -> (r: Result<RelatedToParams, ParameterError>)
        ensures
            r is Ok <==> RelatedToParams::parses(param_pieces(v@)),
            r matches Ok(p) ==> p.describes(param_pieces(v@)),
    {
        let segs = param_segments(v);
        let ghost ps = vec_views(segs@);
        let ghost keys = RelatedToParams::keys();
        let mut p = RelatedToParams::new();
        let mut i: usize = 0;
        assert(ps.take(0) =~= Seq::<Seq<u8>>::empty());
        while i < segs.len()
            invariant
                i <= segs.len(),
                ps == vec_views(segs@),
                ps == param_pieces(v@),
                keys == RelatedToParams::keys(),
                kept(unmodeled(ps.take(i as int), keys)) == Some(
                    (p.spec_shared().iana_bytes(), p.spec_shared().xname_bytes()),
                ),
                forall|j: int|
                    0 <= j < i && named(#[trigger] ps[j], "RELTYPE".spec_bytes()) ==> RelationshipType::parses(
                        seg_value(ps[j]),
                    ),
                match last_value(ps.take(i as int), "RELTYPE".spec_bytes()) {
                    Some(w) => p.spec_rt() matches Some(x) && RelationshipType::accepts(w, x),
                    None => p.spec_rt() is None,
                },
            decreases segs.len() - i,
        {
            let seg = segs[i].as_slice();
            proof {
                lemma_step(ps, keys, i as int);
                assert(seg@ == ps[i as int]);
                RelatedToParams::lemma_keys_distinct();
                assert(keys[0] == "RELTYPE".spec_bytes());
                lemma_kept_push(unmodeled(ps.take(i as int), keys), ps[i as int]);
            }
            match p.take_segment(seg) {
                Ok(()) => {},
                Err(e) => {
                    proof {
                        if !modeled(ps[i as int], keys) {
                            lemma_kept_unmodeled_fails(ps, keys, i + 1, ps.len() as int);
                        }
                        assert(ps.take(ps.len() as int) =~= ps);
                    }
                    return Err(e);
                },
            }
            i += 1;
        }
        assert(ps.take(segs.len() as int) =~= ps);
        Ok(p)
    }

    /// The unmodeled parameters.
    pub fn shared(&self) -> (r: &SharedParams)
        ensures
            *r == self.spec_shared(),
    {
        &self.shared
    }

    /// The `RELTYPE` parameter.
    pub fn rt(&self) -> (r: Option<&RelationshipType>)
        ensures
            match r {
                Some(x) => self.spec_rt() == Some(*x),
                None => self.spec_rt() is None,
            },
    {
        self.rt.as_ref()
    }

    /// Sets the `RELTYPE` parameter.
    pub fn set_rt(&mut self, x: RelationshipType)
        ensures
            final(self).spec_rt() == Some(x),
            final(self).spec_shared() == old(self).spec_shared(),
    {
        self.rt = Some(x);
    }

    /// How the parameters are written: each modeled one that is set, then
    /// the kept ones.
    pub open spec fn ical(&self) -> Seq<u8> {
        self.rt_text() + self.spec_shared().ical()
    }

    /// The written parameters are valid UTF-8.
    pub proof fn lemma_ical_valid(&self)
        ensures
            valid_utf8(self.ical()),
    {
        self.spec_shared().lemma_ical_valid();
        let mut acc: Seq<u8> = seq![];
        assert(valid_utf8(acc));
        let part = self.rt_text();
        if let Some(x) = self.spec_rt() {
            x.lemma_ical_valid();
            vstd::utf8::encode_utf8_valid_utf8(";RELTYPE="@);
            vstd::utf8::valid_utf8_concat(";RELTYPE=".spec_bytes(), x.ical());
        }
        vstd::utf8::valid_utf8_concat(acc, part);
        acc = acc + part;
        vstd::utf8::valid_utf8_concat(acc, self.spec_shared().ical());
        assert(acc + self.spec_shared().ical() =~= self.ical());
    }

    /// The `RELTYPE` parameter as written, when it is set.
    pub open spec fn rt_text(&self) -> Seq<u8> {
        match self.spec_rt() {
            Some(x) => ";RELTYPE=".spec_bytes() + x.ical(),
            None => seq![],
        }
    }

    fn write_rt(&self, out: &mut Vec<u8>)
        ensures
            final(out)@ == old(out)@ + self.rt_text(),
    {
        if let Some(x) = &self.rt {
            append_str(out, ";RELTYPE=");
            x.write_to(out);
        }
    }

    /// Appends the parameters as written.
    pub fn write_to(&self, out: &mut Vec<u8>)
        ensures
            final(out)@ == old(out)@ + self.ical(),
    {
        self.write_rt(out);
        self.shared.write_to(out);
        assert(out@ =~= old(out)@ + self.ical());
    }
}
/// A relationship to another component, named by its `UID` (RFC 5545
/// §3.8.4.5).
#[derive(Debug)]
pub struct RelatedTo {
    value: Text,
    params: RelatedToParams,
}

impl RelatedTo {
    /// The property's value.
    pub closed spec fn spec_value(&self) -> Text {
        self.value
    }

    /// The property's parameters.
    pub closed spec fn spec_params(&self) -> RelatedToParams {
        self.params
    }

    /// Whether the rest of a content line, after the name, parses.
    pub open spec fn parses(v: Seq<u8>) -> bool {
        match first_unquoted(v, COLON) {
            Some(k) => RelatedToParams::parses(param_pieces(v.take(k))) && Text::parses(v.skip(k + 1)),
            None => false,
        }
    }

    /// Whether this property is what the rest of a content line parses to.
    pub open spec fn describes(&self, v: Seq<u8>) -> bool {
        match first_unquoted(v, COLON) {
            Some(k) => self.spec_params().describes(param_pieces(v.take(k))) && Text::accepts(v.skip(k + 1), self.spec_value()),
            None => false,
        }
    }

    /// Parses the rest of a content line, after the name: the parameters,
    /// `:`, the value.
    pub fn try_from(v: &[u8]) -> (r: Result<RelatedTo, ParseError>)
        ensures
            r is Ok <==> RelatedTo::parses(v@),
            r matches Ok(p) ==> p.describes(v@),
            first_unquoted(v@, COLON) is None ==> r matches Err(ParseError::Parameter { .. }),
    {
        let (head, tail) = split_remainder(v)?;
        let params = match RelatedToParams::parse(head.as_slice()) {
            Ok(p) => p,
            Err(e) => {
                return Err(ParseError::Parameters(e));
            },
        };
        let value = match Text::try_from(tail.as_slice()) {
            Ok(x) => x,
            Err(e) => {
                return Err(ParseError::Value(e));
            },
        };
        Ok(RelatedTo { value, params })
    }

    /// The property for the component `value`, with the relationship `rt`.
    pub fn new(value: Text, rt: Option<RelationshipType>) -> (r: RelatedTo)
        ensures
            r.spec_value() == value,
            r.spec_params().spec_rt() == rt,
            r.spec_params().spec_shared().iana_bytes() == Seq::<Seq<u8>>::empty(),
            r.spec_params().spec_shared().xname_bytes() == Seq::<Seq<u8>>::empty(),
    {
        let mut params = RelatedToParams::new();
        if let Some(t) = rt {
            params.set_rt(t);
        }
        RelatedTo { value, params }
    }

    /// The property's value.
    pub fn value(&self) -> (r: &Text)
        ensures
            *r == self.spec_value(),
    {
        &self.value
    }

    /// The property's parameters.
    pub fn params(&self) -> (r: &RelatedToParams)
        ensures
            *r == self.spec_params(),
    {
        &self.params
    }
}

impl Ical for RelatedTo {
    /// The content line: `RELATED-TO`, the parameters, `:`, the value.
    open spec fn ical(&self) -> Seq<u8> {
        "RELATED-TO".spec_bytes() + self.spec_params().ical() + seq![COLON] + self.spec_value().ical()
    }

    proof fn lemma_ical_valid(&self) {
        self.spec_params().lemma_ical_valid();
        self.spec_value().lemma_ical_valid();
        lemma_line_valid("RELATED-TO", self.spec_params().ical(), self.spec_value().ical());
    }

    fn write_to(&self, out: &mut Vec<u8>) {
        append_str(out, "RELATED-TO");
        self.params.write_to(out);
        out.push(COLON);
        self.value.write_to(out);
        assert(out@ =~= old(out)@ + self.ical());
    }
}
/// The parameters of a `RECURRENCE-ID` property.
#[derive(Debug)]
pub struct RecurrenceParams {
    shared: SharedParams,
    data_type: Option<ValueDataType>,
    tzid: Option<TimeZoneIdentifier>,
    recurrence: Option<RecurrenceIdentifierRange>,
}

impl RecurrenceParams {
    /// The names of the parameters modeled here.
    pub open spec fn keys() -> Seq<Seq<u8>> {
        seq!["VALUE".spec_bytes(), "TZID".spec_bytes(), "RANGE".spec_bytes()]
    }

    /// Whether the segments `ps` parse: every unmodeled one can be kept and
    /// every modeled one holds a value of its parameter.
    pub open spec fn parses(ps: Seq<Seq<u8>>) -> bool {
        &&& kept(unmodeled(ps, RecurrenceParams::keys())) is Some
        &&& forall|i: int|
            0 <= i < ps.len() && named(#[trigger] ps[i], "VALUE".spec_bytes()) ==> ValueDataType::parses(
                seg_value(ps[i]),
            )
        &&& forall|i: int|
            0 <= i < ps.len() && named(#[trigger] ps[i], "TZID".spec_bytes()) ==> TimeZoneIdentifier::parses(
                seg_value(ps[i]),
            )
        &&& forall|i: int|
            0 <= i < ps.len() && named(#[trigger] ps[i], "RANGE".spec_bytes()) ==> RecurrenceIdentifierRange::parses(
                seg_value(ps[i]),
            )
    }

    /// The unmodeled parameters.
    pub closed spec fn spec_shared(&self) -> SharedParams {
        self.shared
    }

    /// The `VALUE` parameter.
    pub closed spec fn spec_data_type(&self) -> Option<ValueDataType> {
        self.data_type
    }

    /// The `TZID` parameter.
    pub closed spec fn spec_tzid(&self) -> Option<TimeZoneIdentifier> {
        self.tzid
    }

    /// The `RANGE` parameter.
    pub closed spec fn spec_recurrence(&self) -> Option<RecurrenceIdentifierRange> {
        self.recurrence
    }

    /// Whether these parameters are what the segments `ps` parse to: each
    /// modeled parameter from its last occurrence, the rest kept in order.
    pub open spec fn describes(&self, ps: Seq<Seq<u8>>) -> bool {
        &&& kept(unmodeled(ps, RecurrenceParams::keys())) == Some(
            (self.spec_shared().iana_bytes(), self.spec_shared().xname_bytes()),
        )
        &&& match last_value(ps, "VALUE".spec_bytes()) {
            Some(v) => self.spec_data_type() matches Some(x) && ValueDataType::accepts(v, x),
            None => self.spec_data_type() is None,
        }
        &&& match last_value(ps, "TZID".spec_bytes()) {
            Some(v) => self.spec_tzid() matches Some(x) && TimeZoneIdentifier::accepts(v, x),
            None => self.spec_tzid() is None,
        }
        &&& match last_value(ps, "RANGE".spec_bytes()) {
            Some(v) => self.spec_recurrence() matches Some(x) && RecurrenceIdentifierRange::accepts(v, x),
            None => self.spec_recurrence() is None,
        }
    }

    /// No parameters.
    pub fn new() -> (r: RecurrenceParams)
        ensures
            r.spec_shared().iana_bytes() == Seq::<Seq<u8>>::empty(),
            r.spec_shared().xname_bytes() == Seq::<Seq<u8>>::empty(),
            r.spec_data_type() is None,
            r.spec_tzid() is None,
            r.spec_recurrence() is None,
    {
        RecurrenceParams { shared: SharedParams::new(), data_type: None, tzid: None, recurrence: None }
    }

    /// The names modeled here differ from one another.
    proof fn lemma_keys_distinct()
        ensures
            "VALUE".spec_bytes() != "TZID".spec_bytes(),
            "VALUE".spec_bytes() != "RANGE".spec_bytes(),
            "TZID".spec_bytes() != "RANGE".spec_bytes(),
    {
        reveal_strlit("VALUE");
        reveal_strlit("TZID");
        reveal_strlit("RANGE");
        lemma_str_bytes_differ("VALUE", "TZID", 0);
        lemma_str_bytes_differ("VALUE", "RANGE", 0);
        lemma_str_bytes_differ("TZID", "RANGE", 0);
    }

    /// Whether one segment can be taken: a modeled one must hold a value of
    /// its parameter, any other must be keepable.
    pub open spec fn segment_ok(seg: Seq<u8>) -> bool {
        if named(seg, "VALUE".spec_bytes()) {
            ValueDataType::parses(seg_value(seg))
        } else if named(seg, "TZID".spec_bytes()) {
            TimeZoneIdentifier::parses(seg_value(seg))
        } else if named(seg, "RANGE".spec_bytes()) {
            RecurrenceIdentifierRange::parses(seg_value(seg))
        } else {
            keepable(seg)
        }
    }

    /// How taking the segment `seg` changes the parameters `p` into `q`.
    pub open spec fn segment_step(p: RecurrenceParams, q: RecurrenceParams, seg: Seq<u8>) -> bool {
        &&& if named(seg, "VALUE".spec_bytes()) {
            q.spec_data_type() matches Some(x) && ValueDataType::accepts(seg_value(seg), x)
        } else {
            q.spec_data_type() == p.spec_data_type()
        }
        &&& if named(seg, "TZID".spec_bytes()) {
            q.spec_tzid() matches Some(x) && TimeZoneIdentifier::accepts(seg_value(seg), x)
        } else {
            q.spec_tzid() == p.spec_tzid()
        }
        &&& if named(seg, "RANGE".spec_bytes()) {
            q.spec_recurrence() matches Some(x) && RecurrenceIdentifierRange::accepts(seg_value(seg), x)
        } else {
            q.spec_recurrence() == p.spec_recurrence()
        }
        &&& if modeled(seg, RecurrenceParams::keys()) {
            q.spec_shared() == p.spec_shared()
        } else {
            kept_step(p.spec_shared().iana_bytes(), p.spec_shared().xname_bytes(), seg) == Some(
                (q.spec_shared().iana_bytes(), q.spec_shared().xname_bytes()),
            )
        }
    }

    /// Takes one `NAME=VALUE` segment.
    fn take_segment(&mut self, seg: &[u8]) -> (r: Result<(), ParameterError>)
        ensures
            r is Ok <==> RecurrenceParams::segment_ok(seg@),
            r is Ok ==> RecurrenceParams::segment_step(*old(self), *final(self), seg@),
    {
        proof {
            RecurrenceParams::lemma_keys_distinct();
            assert(RecurrenceParams::keys()[0] == "VALUE".spec_bytes());
            assert(RecurrenceParams::keys()[1] == "TZID".spec_bytes());
            assert(RecurrenceParams::keys()[2] == "RANGE".spec_bytes());
        }
        let name = match param_name(seg) {
            Ok(n) => n,
            Err(e) => {
                return Err(e);
            },
        };
        let key = to_upper(name.as_slice());
        if eq_str(key.as_slice(), "VALUE") {
            let value = param_value(seg)?;
            match ValueDataType::try_from(value.as_slice()) {
                Ok(x) => {
                    self.data_type = Some(x);
                    Ok(())
                },
                Err(e) => Err(ParameterError::Param(e)),
            }
        } else if eq_str(key.as_slice(), "TZID") {
            let value = param_value(seg)?;
            match TimeZoneIdentifier::try_from(value.as_slice()) {
                Ok(x) => {
                    self.tzid = Some(x);
                    Ok(())
                },
                Err(e) => Err(ParameterError::Param(e)),
            }
        } else if eq_str(key.as_slice(), "RANGE") {
            let value = param_value(seg)?;
            match RecurrenceIdentifierRange::try_from(value.as_slice()) {
                Ok(x) => {
                    self.recurrence = Some(x);
                    Ok(())
                },
                Err(e) => Err(ParameterError::Param(e)),
            }
        } else {
            assert(!modeled(seg@, RecurrenceParams::keys()));
            self.shared.absorb(seg)
        }
    }

    /// Parses a parameter list.
    pub fn parse(v: &[u8]) -> (r: Result<RecurrenceParams, ParameterError>)
        ensures
            r is Ok <==> RecurrenceParams::parses(param_pieces(v@)),
            r matches Ok(p) ==> p.describes(param_pieces(v@)),
    {
        let segs = param_segments(v);
        let ghost ps = vec_views(segs@);
        let ghost keys = RecurrenceParams::keys();
        let mut p = RecurrenceParams::new();
        let mut i: usize = 0;
        assert(ps.take(0) =~= Seq::<Seq<u8>>::empty());
        while i < segs.len()
            invariant
                i <= segs.len(),
                ps == vec_views(segs@),
                ps == param_pieces(v@),
                keys == RecurrenceParams::keys(),
                kept(unmodeled(ps.take(i as int), keys)) == Some(
                    (p.spec_shared().iana_bytes(), p.spec_shared().xname_bytes()),
                ),
                forall|j: int|
                    0 <= j < i && named(#[trigger] ps[j], "VALUE".spec_bytes()) ==> ValueDataType::parses(
                        seg_value(ps[j]),
                    ),
                match last_value(ps.take(i as int), "VALUE".spec_bytes()) {
                    Some(w) => p.spec_data_type() matches Some(x) && ValueDataType::accepts(w, x),
                    None => p.spec_data_type() is None,
                },
                forall|j: int|
                    0 <= j < i && named(#[trigger] ps[j], "TZID".spec_bytes()) ==> TimeZoneIdentifier::parses(
                        seg_value(ps[j]),
                    ),
                match last_value(ps.take(i as int), "TZID".spec_bytes()) {
                    Some(w) => p.spec_tzid() matches Some(x) && TimeZoneIdentifier::accepts(w, x),
                    None => p.spec_tzid() is None,
                },
                forall|j: int|
                    0 <= j < i && named(#[trigger] ps[j], "RANGE".spec_bytes()) ==> RecurrenceIdentifierRange::parses(
                        seg_value(ps[j]),
                    ),
                match last_value(ps.take(i as int), "RANGE".spec_bytes()) {
                    Some(w) => p.spec_recurrence() matches Some(x) && RecurrenceIdentifierRange::accepts(w, x),
                    None => p.spec_recurrence() is None,
                },
            decreases segs.len() - i,
        {
            let seg = segs[i].as_slice();
            proof {
                lemma_step(ps, keys, i as int);
                assert(seg@ == ps[i as int]);
                RecurrenceParams::lemma_keys_distinct();
                assert(keys[0] == "VALUE".spec_bytes());
                assert(keys[1] == "TZID".spec_bytes());
                assert(keys[2] == "RANGE".spec_bytes());
                lemma_kept_push(unmodeled(ps.take(i as int), keys), ps[i as int]);
            }
            match p.take_segment(seg) {
                Ok(()) => {},
                Err(e) => {
                    proof {
                        if !modeled(ps[i as int], keys) {
                            lemma_kept_unmodeled_fails(ps, keys, i + 1, ps.len() as int);
                        }
                        assert(ps.take(ps.len() as int) =~= ps);
                    }
                    return Err(e);
                },
            }
            i += 1;
        }
        assert(ps.take(segs.len() as int) =~= ps);
        Ok(p)
    }

    /// The unmodeled parameters.
    pub fn shared(&self) -> (r: &SharedParams)
        ensures
            *r == self.spec_shared(),
    {
        &self.shared
    }

    /// The `VALUE` parameter.
    pub fn data_type(&self) -> (r: Option<&ValueDataType>)
        ensures
            match r {
                Some(x) => self.spec_data_type() == Some(*x),
                None => self.spec_data_type() is None,
            },
    {
        self.data_type.as_ref()
    }

    /// Sets the `VALUE` parameter.
    pub fn set_data_type(&mut self, x: ValueDataType)
        ensures
            final(self).spec_data_type() == Some(x),
            final(self).spec_shared() == old(self).spec_shared(),
            final(self).spec_tzid() == old(self).spec_tzid(),
            final(self).spec_recurrence() == old(self).spec_recurrence(),
    {
        self.data_type = Some(x);
    }

    /// The `TZID` parameter.
    pub fn tzid(&self) -> (r: Option<&TimeZoneIdentifier>)
        ensures
            match r {
                Some(x) => self.spec_tzid() == Some(*x),
                None => self.spec_tzid() is None,
            },
    {
        self.tzid.as_ref()
    }

    /// Sets the `TZID` parameter.
    pub fn set_tzid(&mut self, x: TimeZoneIdentifier)
        ensures
            final(self).spec_tzid() == Some(x),
            final(self).spec_shared() == old(self).spec_shared(),
            final(self).spec_data_type() == old(self).spec_data_type(),
            final(self).spec_recurrence() == old(self).spec_recurrence(),
    {
        self.tzid = Some(x);
    }

    /// The `RANGE` parameter.
    pub fn recurrence(&self) -> (r: Option<&RecurrenceIdentifierRange>)
        ensures
            match r {
                Some(x) => self.spec_recurrence() == Some(*x),
                None => self.spec_recurrence() is None,
            },
    {
        self.recurrence.as_ref()
    }

    /// Sets the `RANGE` parameter.
    pub fn set_recurrence(&mut self, x: RecurrenceIdentifierRange)
        ensures
            final(self).spec_recurrence() == Some(x),
            final(self).spec_shared() == old(self).spec_shared(),
            final(self).spec_data_type() == old(self).spec_data_type(),
            final(self).spec_tzid() == old(self).spec_tzid(),
    {
        self.recurrence = Some(x);
    }

    /// How the parameters are written: each modeled one that is set, then
    /// the kept ones.
    pub open spec fn ical(&self) -> Seq<u8> {
        self.data_type_text() + self.tzid_text() + self.recurrence_text() + self.spec_shared().ical()
    }

    /// The written parameters are valid UTF-8.
    pub proof fn lemma_ical_valid(&self)
        ensures
            valid_utf8(self.ical()),
    {
        self.spec_shared().lemma_ical_valid();
        let mut acc: Seq<u8> = seq![];
        assert(valid_utf8(acc));
        let part = self.data_type_text();
        if let Some(x) = self.spec_data_type() {
            x.lemma_ical_valid();
            vstd::utf8::encode_utf8_valid_utf8(";VALUE="@);
            vstd::utf8::valid_utf8_concat(";VALUE=".spec_bytes(), x.ical());
        }
        vstd::utf8::valid_utf8_concat(acc, part);
        acc = acc + part;
        let part = self.tzid_text();
        if let Some(x) = self.spec_tzid() {
            x.lemma_ical_valid();
            vstd::utf8::encode_utf8_valid_utf8(";TZID="@);
            vstd::utf8::valid_utf8_concat(";TZID=".spec_bytes(), x.ical());
        }
        vstd::utf8::valid_utf8_concat(acc, part);
        acc = acc + part;
        let part = self.recurrence_text();
        if let Some(x) = self.spec_recurrence() {
            x.lemma_ical_valid();
            vstd::utf8::encode_utf8_valid_utf8(";RANGE="@);
            vstd::utf8::valid_utf8_concat(";RANGE=".spec_bytes(), x.ical());
        }
        vstd::utf8::valid_utf8_concat(acc, part);
        acc = acc + part;
        vstd::utf8::valid_utf8_concat(acc, self.spec_shared().ical());
        assert(acc + self.spec_shared().ical() =~= self.ical());
    }

    /// The `VALUE` parameter as written, when it is set.
    pub open spec fn data_type_text(&self) -> Seq<u8> {
        match self.spec_data_type() {
            Some(x) => ";VALUE=".spec_bytes() + x.ical(),
            None => seq![],
        }
    }

    fn write_data_type(&self, out: &mut Vec<u8>)
        ensures
            final(out)@ == old(out)@ + self.data_type_text(),
    {
        if let Some(x) = &self.data_type {
            append_str(out, ";VALUE=");
            x.write_to(out);
        }
    }

    /// The `TZID` parameter as written, when it is set.
    pub open spec fn tzid_text(&self) -> Seq<u8> {
        match self.spec_tzid() {
            Some(x) => ";TZID=".spec_bytes() + x.ical(),
            None => seq![],
        }
    }

    fn write_tzid(&self, out: &mut Vec<u8>)
        ensures
            final(out)@ == old(out)@ + self.tzid_text(),
    {
        if let Some(x) = &self.tzid {
            append_str(out, ";TZID=");
            x.write_to(out);
        }
    }

    /// The `RANGE` parameter as written, when it is set.
    pub open spec fn recurrence_text(&self) -> Seq<u8> {
        match self.spec_recurrence() {
            Some(x) => ";RANGE=".spec_bytes() + x.ical(),
            None => seq![],
        }
    }

    fn write_recurrence(&self, out: &mut Vec<u8>)
        ensures
            final(out)@ == old(out)@ + self.recurrence_text(),
    {
        if let Some(x) = &self.recurrence {
            append_str(out, ";RANGE=");
            x.write_to(out);
        }
    }

    /// Appends the parameters as written.
    pub fn write_to(&self, out: &mut Vec<u8>)
        ensures
            final(out)@ == old(out)@ + self.ical(),
    {
        self.write_data_type(out);
        self.write_tzid(out);
        self.write_recurrence(out);
        self.shared.write_to(out);
        assert(out@ =~= old(out)@ + self.ical());
    }
}
/// Which instance of a recurring component this one stands for (RFC 5545
/// §3.8.4.4).
#[derive(Debug)]
pub struct RecurrenceId {
    value: DateOrDatetime,
    params: RecurrenceParams,
}

impl RecurrenceId {
    /// The property's value.
    pub closed spec fn spec_value(&self) -> DateOrDatetime {
        self.value
    }

    /// The property's parameters.
    pub closed spec fn spec_params(&self) -> RecurrenceParams {
        self.params
    }

    /// The zone the `TZID` parameter names, if there is one.
    pub open spec fn zone(&self) -> Option<Seq<char>> {
        match self.spec_params().spec_tzid() {
            Some(t) => Some(t@),
            None => None,
        }
    }

    /// Whether the rest of a content line, after the name, parses.
    pub open spec fn parses(v: Seq<u8>) -> bool {
        match first_unquoted(v, COLON) {
            Some(k) => RecurrenceParams::parses(param_pieces(v.take(k))) && DateOrDatetime::parses(v.skip(k + 1)),
            None => false,
        }
    }

    /// Whether this property is what the rest of a content line parses to:
    /// its value is the one written, read in the zone `TZID` names.
    pub open spec fn describes(&self, v: Seq<u8>) -> bool {
        match first_unquoted(v, COLON) {
            Some(k) => self.spec_params().describes(param_pieces(v.take(k))) && exists|x: DateOrDatetime|
                DateOrDatetime::accepts(v.skip(k + 1), x) && self.spec_value() == date_or_datetime_resolved(x, self.zone()),
            None => false,
        }
    }

    /// Parses the rest of a content line, after the name, and reads a
    /// floating date-time in the zone `TZID` names.
    pub fn try_from(v: &[u8]) -> (r: Result<RecurrenceId, ParseError>)
        ensures
            r is Ok <==> RecurrenceId::parses(v@),
            r matches Ok(p) ==> p.describes(v@),
            first_unquoted(v@, COLON) is None ==> r matches Err(ParseError::Parameter { .. }),
    {
        let (head, tail) = split_remainder(v)?;
        let params = match RecurrenceParams::parse(head.as_slice()) {
            Ok(p) => p,
            Err(e) => {
                return Err(ParseError::Parameters(e));
            },
        };
        let parsed = match DateOrDatetime::try_from(tail.as_slice()) {
            Ok(x) => x,
            Err(e) => {
                return Err(ParseError::Value(e));
            },
        };
        let value = match params.tzid() {
            Some(t) => parsed.resolve_tz(Some(t.as_str())),
            None => parsed.resolve_tz(None),
        };
        let r = RecurrenceId { value, params };
        assert(DateOrDatetime::accepts(tail@, parsed) && r.spec_value() == date_or_datetime_resolved(parsed, r.zone()));
        Ok(r)
    }

    /// The property's value.
    pub fn value(&self) -> (r: &DateOrDatetime)
        ensures
            *r == self.spec_value(),
    {
        &self.value
    }

    /// The property's parameters.
    pub fn params(&self) -> (r: &RecurrenceParams)
        ensures
            *r == self.spec_params(),
    {
        &self.params
    }
}

impl Ical for RecurrenceId {
    /// The content line: `RECURRENCE-ID`, the parameters, `:`, the value.
    open spec fn ical(&self) -> Seq<u8> {
        "RECURRENCE-ID".spec_bytes() + self.spec_params().ical() + seq![COLON] + self.spec_value().ical()
    }

    proof fn lemma_ical_valid(&self) {
        self.spec_params().lemma_ical_valid();
        self.spec_value().lemma_ical_valid();
        lemma_line_valid("RECURRENCE-ID", self.spec_params().ical(), self.spec_value().ical());
    }

    fn write_to(&self, out: &mut Vec<u8>) {
        append_str(out, "RECURRENCE-ID");
        self.params.write_to(out);
        out.push(COLON);
        self.value.write_to(out);
        assert(out@ =~= old(out)@ + self.ical());
    }
}

/// Builds a [`RecurrenceId`].
#[derive(Debug)]
pub struct RecurrenceIdBuilder {
    value: DateOrDatetime,
    tzid: Option<TimeZoneIdentifier>,
    recurrence: Option<RecurrenceIdentifierRange>,
}

impl RecurrenceIdBuilder {
    /// The value being built.
    pub closed spec fn spec_value(&self) -> DateOrDatetime {
        self.value
    }

    /// The `TZID` set so far.
    pub closed spec fn spec_tzid(&self) -> Option<TimeZoneIdentifier> {
        self.tzid
    }

    /// A builder for `value`, with no parameters.
    pub fn new(value: DateOrDatetime) -> (r: RecurrenceIdBuilder)
        ensures
            r.spec_value() == value,
            r.spec_tzid() is None,
    {
        RecurrenceIdBuilder { value, tzid: None, recurrence: None }
    }

    /// Sets `TZID`: a floating date-time is read in that zone.
    pub fn tzid(self, tzid: TimeZoneIdentifier) -> (r: RecurrenceIdBuilder)
        ensures
            r.spec_value() == self.spec_value(),
            r.spec_tzid() == Some(tzid),
    {
        let mut b = self;
        b.tzid = Some(tzid);
        b
    }

    /// Sets the parameter.
    pub fn range(self, v: RecurrenceIdentifierRange) -> (r: RecurrenceIdBuilder)
        ensures
            r.spec_value() == self.spec_value(),
            r.spec_tzid() == self.spec_tzid(),
            r.spec_recurrence() == Some(v),
    {
        let mut b = self;
        b.recurrence = Some(v);
        b
    }

    /// The parameter set so far.
    pub closed spec fn spec_recurrence(&self) -> Option<RecurrenceIdentifierRange> {
        self.recurrence
    }

    /// The property: the value read in the `TZID` zone, and `VALUE=DATE`
    /// for a date.
    pub fn build(self) -> (r: RecurrenceId)
        ensures
            r.spec_value() == date_or_datetime_resolved(self.spec_value(), match self.spec_tzid() {
                Some(t) => Some(t@),
                None => None,
            }),
            r.spec_params().spec_tzid() == self.spec_tzid(),
            r.spec_params().spec_data_type() == if self.spec_value() is Date {
                Some(ValueDataType::Date)
            } else {
                None
            },
            r.spec_params().spec_recurrence() == self.spec_recurrence(),
            r.spec_params().spec_shared().iana_bytes() == Seq::<Seq<u8>>::empty(),
            r.spec_params().spec_shared().xname_bytes() == Seq::<Seq<u8>>::empty(),
    {
        let value = match &self.tzid {
            Some(t) => self.value.resolve_tz(Some(t.as_str())),
            None => self.value.resolve_tz(None),
        };
        let mut params = RecurrenceParams::new();
        if let DateOrDatetime::Date(_) = value {
            params.set_data_type(ValueDataType::Date);
        }
        if let Some(t) = self.tzid {
            params.set_tzid(t);
        }
        if let Some(x) = self.recurrence {
            params.set_recurrence(x);
        }
        RecurrenceId { value, params }
    }
}

/// A URL associated with a component (RFC 5545 §3.8.4.6).
#[derive(Debug)]
pub struct UniformResourceLocator {
    value: Uri,
    params: SharedParams,
}

impl UniformResourceLocator {
    /// The property's value.
    pub closed spec fn spec_value(&self) -> Uri {
        self.value
    }

    /// The property's parameters.
    pub closed spec fn spec_params(&self) -> SharedParams {
        self.params
    }

    /// Whether the rest of a content line, after the name, parses.
    pub open spec fn parses(v: Seq<u8>) -> bool {
        match first_unquoted(v, COLON) {
            Some(k) => SharedParams::parses(param_pieces(v.take(k))) && Uri::parses(v.skip(k + 1)),
            None => false,
        }
    }

    /// Whether this property is what the rest of a content line parses to.
    pub open spec fn describes(&self, v: Seq<u8>) -> bool {
        match first_unquoted(v, COLON) {
            Some(k) => self.spec_params().describes(param_pieces(v.take(k))) && Uri::accepts(v.skip(k + 1), self.spec_value()),
            None => false,
        }
    }

    /// Parses the rest of a content line, after the name: the parameters,
    /// `:`, the value.
    pub fn try_from(v: &[u8]) -> (r: Result<UniformResourceLocator, ParseError>)
        ensures
            r is Ok <==> UniformResourceLocator::parses(v@),
            r matches Ok(p) ==> p.describes(v@),
            first_unquoted(v@, COLON) is None ==> r matches Err(ParseError::Parameter { .. }),
    {
        let (head, tail) = split_remainder(v)?;
        let params = match SharedParams::parse(head.as_slice()) {
            Ok(p) => p,
            Err(e) => {
                return Err(ParseError::Parameters(e));
            },
        };
        let value = match Uri::try_from(tail.as_slice()) {
            Ok(x) => x,
            Err(e) => {
                return Err(ParseError::Value(e));
            },
        };
        Ok(UniformResourceLocator { value, params })
    }

    /// The property with no parameters.
    pub fn new(value: Uri) -> (r: UniformResourceLocator)
        ensures
            r.spec_value() == value,
            r.spec_params().iana_bytes() == Seq::<Seq<u8>>::empty(),
            r.spec_params().xname_bytes() == Seq::<Seq<u8>>::empty(),
    {
        UniformResourceLocator { value, params: SharedParams::new() }
    }

    /// The property's value.
    pub fn value(&self) -> (r: &Uri)
        ensures
            *r == self.spec_value(),
    {
        &self.value
    }

    /// The property's parameters.
    pub fn params(&self) -> (r: &SharedParams)
        ensures
            *r == self.spec_params(),
    {
        &self.params
    }
}

impl Ical for UniformResourceLocator {
    /// The content line: `URL`, the parameters, `:`, the value.
    open spec fn ical(&self) -> Seq<u8> {
        "URL".spec_bytes() + self.spec_params().ical() + seq![COLON] + self.spec_value().ical()
    }

    proof fn lemma_ical_valid(&self) {
        self.spec_params().lemma_ical_valid();
        self.spec_value().lemma_ical_valid();
        lemma_line_valid("URL", self.spec_params().ical(), self.spec_value().ical());
    }

    fn write_to(&self, out: &mut Vec<u8>) {
        append_str(out, "URL");
        self.params.write_to(out);
        out.push(COLON);
        self.value.write_to(out);
        assert(out@ =~= old(out)@ + self.ical());
    }
}
/// The persistent, globally unique identifier of a component (RFC 5545
/// §3.8.4.7).
#[derive(Debug)]
pub struct Uid {
    value: Text,
    params: SharedParams,
}

impl Uid {
    /// The property's value.
    pub closed spec fn spec_value(&self) -> Text {
        self.value
    }

    /// The property's parameters.
    pub closed spec fn spec_params(&self) -> SharedParams {
        self.params
    }

    /// Whether the rest of a content line, after the name, parses.
    pub open spec fn parses(v: Seq<u8>) -> bool {
        match first_unquoted(v, COLON) {
            Some(k) => SharedParams::parses(param_pieces(v.take(k))) && Text::parses(v.skip(k + 1)),
            None => false,
        }
    }

    /// Whether this property is what the rest of a content line parses to.
    pub open spec fn describes(&self, v: Seq<u8>) -> bool {
        match first_unquoted(v, COLON) {
            Some(k) => self.spec_params().describes(param_pieces(v.take(k))) && Text::accepts(v.skip(k + 1), self.spec_value()),
            None => false,
        }
    }

    /// Parses the rest of a content line, after the name: the parameters,
    /// `:`, the value.
    pub fn try_from(v: &[u8]) -> (r: Result<Uid, ParseError>)
        ensures
            r is Ok <==> Uid::parses(v@),
            r matches Ok(p) ==> p.describes(v@),
            first_unquoted(v@, COLON) is None ==> r matches Err(ParseError::Parameter { .. }),
    {
        let (head, tail) = split_remainder(v)?;
        let params = match SharedParams::parse(head.as_slice()) {
            Ok(p) => p,
            Err(e) => {
                return Err(ParseError::Parameters(e));
            },
        };
        let value = match Text::try_from(tail.as_slice()) {
            Ok(x) => x,
            Err(e) => {
                return Err(ParseError::Value(e));
            },
        };
        Ok(Uid { value, params })
    }

    /// The property with no parameters.
    pub fn new(value: Text) -> (r: Uid)
        ensures
            r.spec_value() == value,
            r.spec_params().iana_bytes() == Seq::<Seq<u8>>::empty(),
            r.spec_params().xname_bytes() == Seq::<Seq<u8>>::empty(),
    {
        Uid { value, params: SharedParams::new() }
    }

    /// The property's value.
    pub fn value(&self) -> (r: &Text)
        ensures
            *r == self.spec_value(),
    {
        &self.value
    }

    /// The property's parameters.
    pub fn params(&self) -> (r: &SharedParams)
        ensures
            *r == self.spec_params(),
    {
        &self.params
    }
}

impl Ical for Uid {
    /// The content line: `UID`, the parameters, `:`, the value.
    open spec fn ical(&self) -> Seq<u8> {
        "UID".spec_bytes() + self.spec_params().ical() + seq![COLON] + self.spec_value().ical()
    }

    proof fn lemma_ical_valid(&self) {
        self.spec_params().lemma_ical_valid();
        self.spec_value().lemma_ical_valid();
        lemma_line_valid("UID", self.spec_params().ical(), self.spec_value().ical());
    }

    fn write_to(&self, out: &mut Vec<u8>) {
        append_str(out, "UID");
        self.params.write_to(out);
        out.push(COLON);
        self.value.write_to(out);
        assert(out@ =~= old(out)@ + self.ical());
    }
}
} // verus!
