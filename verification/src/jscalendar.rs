//! The JSCalendar data model and the JMAP Calendars extensions layered on top of it.
//!
//! Unknown and extension properties are kept in `extra`, so that nothing a server sends is
//! dropped on the way through.

use vstd::prelude::*;
use vstd::string::*;
use crate::calendar::{NaiveDate, NaiveDateTime};
use crate::collections::{CloneView, StrMap};
use crate::json::{Value, ValueV};
use crate::text::str_eq;
use crate::timetext::{format_time, iso_text, iso_text_reads_back, read_iso, read_time};

verus! {

pub type Id = String;

/// A JSCalendar "String[Boolean]" set, as keywords and categories are.
pub type BoolSet = StrMap<bool>;

/// A JSCalendar patch object: keys mapped to replacement values, or to `null` to remove.
pub type PatchObject = StrMap<Value>;

/// JSCalendar `LocalDateTime`: a date and time without a time zone, written
/// `YYYY-MM-DDTHH:MM:SS`. What it means depends on the object's `timeZone` property.
#[derive(Debug)]
pub struct LocalDateTime(pub String);

impl DeepView for LocalDateTime {
    type V = Seq<char>;

    open spec fn deep_view(&self) -> Seq<char> {
        self.0@
    }
}

impl CloneView for LocalDateTime {
    fn clone_view(&self) -> (r: Self) {
        LocalDateTime(self.0.clone())
    }
}

impl Clone for LocalDateTime {
    fn clone(&self) -> (r: Self)
        ensures
            r.deep_view() == self.deep_view(),
    {
        self.clone_view()
    }
}

/// The time that the text of a `LocalDateTime` stands for.
pub open spec fn local_time(s: Seq<char>) -> Option<NaiveDateTime> {
    read_time(s, "%Y-%m-%dT%H:%M:%S"@)
}

impl LocalDateTime {
    pub fn from_naive(dt: NaiveDateTime) -> (r: Self)
        requires
            dt.valid(),
        ensures
            r.deep_view() == iso_text(dt),
    {
        LocalDateTime(format_time(dt, "%Y-%m-%dT%H:%M:%S"))
    }

    pub fn to_naive(&self) -> (r: Option<NaiveDateTime>)
        ensures
            r == local_time(self.deep_view()),
            r is Some ==> r->0.valid(),
    {
        read_iso(self.0.as_str())
    }

    pub fn date(&self) -> (r: Option<NaiveDate>)
        ensures
            r == (match local_time(self.deep_view()) {
                Some(t) => Some(t.date),
                None => None,
            }),
    {
        match self.to_naive() {
            Some(t) => Some(t.date),
            None => None,
        }
    }
}

/// How often a rule repeats.
#[derive(Debug, Clone, Copy, PartialEq, Eq, Structural)]
pub enum Frequency {
    Daily,
    Weekly,
    Monthly,
    Yearly,
    Hourly,
    Minutely,
    Secondly,
}

impl DeepView for Frequency {
    type V = Frequency;

    open spec fn deep_view(&self) -> Frequency {
        *self
    }
}

impl CloneView for Frequency {
    fn clone_view(&self) -> (r: Self) {
        *self
    }
}

impl Default for Frequency {
    fn default() -> (r: Self)
        ensures
            r == Frequency::Daily,
    {
        Frequency::Daily
    }
}

/// A day of the week.
#[derive(Debug, Clone, Copy, PartialEq, Eq, Structural)]
pub enum Weekday {
    Monday,
    Tuesday,
    Wednesday,
    Thursday,
    Friday,
    Saturday,
    Sunday,
}

impl DeepView for Weekday {
    type V = Weekday;

    open spec fn deep_view(&self) -> Weekday {
        *self
    }
}

impl CloneView for Weekday {
    fn clone_view(&self) -> (r: Self) {
        *self
    }
}

/// A day of the week, and which one of its kind in the period.
#[derive(Debug)]
pub struct NDay {
    pub type_: String,
    pub day: Weekday,
    pub nth_of_period: Option<i32>,
}

/// What a [`NDay`] stands for.
#[verifier::ext_equal]
pub struct NDayV {
    pub type_: Seq<char>,
    pub day: Weekday,
    pub nth_of_period: Option<i32>,
}

impl DeepView for NDay {
    type V = NDayV;

    open spec fn deep_view(&self) -> NDayV {
        NDayV {
            type_: self.type_.deep_view(),
            day: self.day.deep_view(),
            nth_of_period: self.nth_of_period.deep_view(),
        }
    }
}

impl CloneView for NDay {
    fn clone_view(&self) -> (r: Self) {
        NDay {
            type_: self.type_.clone_view(),
            day: self.day.clone_view(),
            nth_of_period: self.nth_of_period.clone_view(),
        }
    }
}

impl Clone for NDay {
    fn clone(&self) -> (r: Self)
        ensures
            r.deep_view() == self.deep_view(),
    {
        self.clone_view()
    }
}

/// A rule by which an event repeats.
#[derive(Debug)]
pub struct RecurrenceRule {
    pub type_: String,
    pub frequency: Frequency,
    pub interval: Option<u32>,
    pub count: Option<u32>,
    pub until: Option<LocalDateTime>,
    pub by_day: Vec<NDay>,
    pub by_month_day: Vec<i32>,
    pub by_month: Vec<String>,
    pub by_set_position: Vec<i32>,
    pub extra: StrMap<Value>,
}

/// What a [`RecurrenceRule`] stands for.
#[verifier::ext_equal]
pub struct RecurrenceRuleV {
    pub type_: Seq<char>,
    pub frequency: Frequency,
    pub interval: Option<u32>,
    pub count: Option<u32>,
    pub until: Option<Seq<char>>,
    pub by_day: Seq<NDayV>,
    pub by_month_day: Seq<i32>,
    pub by_month: Seq<Seq<char>>,
    pub by_set_position: Seq<i32>,
    pub extra: Seq<(Seq<char>, ValueV)>,
}

impl DeepView for RecurrenceRule {
    type V = RecurrenceRuleV;

    open spec fn deep_view(&self) -> RecurrenceRuleV {
        RecurrenceRuleV {
            type_: self.type_.deep_view(),
            frequency: self.frequency.deep_view(),
            interval: self.interval.deep_view(),
            count: self.count.deep_view(),
            until: self.until.deep_view(),
            by_day: self.by_day.deep_view(),
            by_month_day: self.by_month_day.deep_view(),
            by_month: self.by_month.deep_view(),
            by_set_position: self.by_set_position.deep_view(),
            extra: self.extra.deep_view(),
        }
    }
}

impl CloneView for RecurrenceRule {
    fn clone_view(&self) -> (r: Self) {
        RecurrenceRule {
            type_: self.type_.clone_view(),
            frequency: self.frequency.clone_view(),
            interval: self.interval.clone_view(),
            count: self.count.clone_view(),
            until: self.until.clone_view(),
            by_day: self.by_day.clone_view(),
            by_month_day: self.by_month_day.clone_view(),
            by_month: self.by_month.clone_view(),
            by_set_position: self.by_set_position.clone_view(),
            extra: self.extra.clone_view(),
        }
    }
}

impl Clone for RecurrenceRule {
    fn clone(&self) -> (r: Self)
        ensures
            r.deep_view() == self.deep_view(),
    {
        self.clone_view()
    }
}

impl RecurrenceRuleV {
    /// Every part empty, absent or zero.
    pub open spec fn blank() -> RecurrenceRuleV {
        RecurrenceRuleV {
            type_: Seq::empty(),
            frequency: Frequency::Daily,
            interval: None,
            count: None,
            until: None,
            by_day: Seq::empty(),
            by_month_day: Seq::empty(),
            by_month: Seq::empty(),
            by_set_position: Seq::empty(),
            extra: Seq::empty(),
        }
    }
}

impl Default for RecurrenceRule {
    fn default() -> (r: Self)
        ensures
            r.deep_view() == RecurrenceRuleV::blank(),
    {
        let r = RecurrenceRule {
            type_: String::new(),
            frequency: Frequency::Daily,
            interval: None,
            count: None,
            until: None,
            by_day: Vec::new(),
            by_month_day: Vec::new(),
            by_month: Vec::new(),
            by_set_position: Vec::new(),
            extra: StrMap::new(),
        };
        assert(r.deep_view() =~= RecurrenceRuleV::blank());
        r
    }
}

/// A place.
#[derive(Debug)]
pub struct Location {
    pub type_: String,
    pub name: Option<String>,
    pub description: Option<String>,
    pub relative_to: Option<String>,
    pub time_zone: Option<String>,
    pub extra: StrMap<Value>,
}

/// What a [`Location`] stands for.
#[verifier::ext_equal]
pub struct LocationV {
    pub type_: Seq<char>,
    pub name: Option<Seq<char>>,
    pub description: Option<Seq<char>>,
    pub relative_to: Option<Seq<char>>,
    pub time_zone: Option<Seq<char>>,
    pub extra: Seq<(Seq<char>, ValueV)>,
}

impl DeepView for Location {
    type V = LocationV;

    open spec fn deep_view(&self) -> LocationV {
        LocationV {
            type_: self.type_.deep_view(),
            name: self.name.deep_view(),
            description: self.description.deep_view(),
            relative_to: self.relative_to.deep_view(),
            time_zone: self.time_zone.deep_view(),
            extra: self.extra.deep_view(),
        }
    }
}

impl CloneView for Location {
    fn clone_view(&self) -> (r: Self) {
        Location {
            type_: self.type_.clone_view(),
            name: self.name.clone_view(),
            description: self.description.clone_view(),
            relative_to: self.relative_to.clone_view(),
            time_zone: self.time_zone.clone_view(),
            extra: self.extra.clone_view(),
        }
    }
}

impl Clone for Location {
    fn clone(&self) -> (r: Self)
        ensures
            r.deep_view() == self.deep_view(),
    {
        self.clone_view()
    }
}

impl LocationV {
    /// Every part empty, absent or zero.
    pub open spec fn blank() -> LocationV {
        LocationV {
            type_: Seq::empty(),
            name: None,
            description: None,
            relative_to: None,
            time_zone: None,
            extra: Seq::empty(),
        }
    }
}

impl Default for Location {
    fn default() -> (r: Self)
        ensures
            r.deep_view() == LocationV::blank(),
    {
        let r = Location {
            type_: String::new(),
            name: None,
            description: None,
            relative_to: None,
            time_zone: None,
            extra: StrMap::new(),
        };
        assert(r.deep_view() =~= LocationV::blank());
        r
    }
}

/// A place on the network.
#[derive(Debug)]
pub struct VirtualLocation {
    pub type_: String,
    pub name: Option<String>,
    pub description: Option<String>,
    pub uri: String,
    pub extra: StrMap<Value>,
}

/// What a [`VirtualLocation`] stands for.
#[verifier::ext_equal]
pub struct VirtualLocationV {
    pub type_: Seq<char>,
    pub name: Option<Seq<char>>,
    pub description: Option<Seq<char>>,
    pub uri: Seq<char>,
    pub extra: Seq<(Seq<char>, ValueV)>,
}

impl DeepView for VirtualLocation {
    type V = VirtualLocationV;

    open spec fn deep_view(&self) -> VirtualLocationV {
        VirtualLocationV {
            type_: self.type_.deep_view(),
            name: self.name.deep_view(),
            description: self.description.deep_view(),
            uri: self.uri.deep_view(),
            extra: self.extra.deep_view(),
        }
    }
}

impl CloneView for VirtualLocation {
    fn clone_view(&self) -> (r: Self) {
        VirtualLocation {
            type_: self.type_.clone_view(),
            name: self.name.clone_view(),
            description: self.description.clone_view(),
            uri: self.uri.clone_view(),
            extra: self.extra.clone_view(),
        }
    }
}

impl Clone for VirtualLocation {
    fn clone(&self) -> (r: Self)
        ensures
            r.deep_view() == self.deep_view(),
    {
        self.clone_view()
    }
}

impl VirtualLocationV {
    /// Every part empty, absent or zero.
    pub open spec fn blank() -> VirtualLocationV {
        VirtualLocationV {
            type_: Seq::empty(),
            name: None,
            description: None,
            uri: Seq::empty(),
            extra: Seq::empty(),
        }
    }
}

impl Default for VirtualLocation {
    fn default() -> (r: Self)
        ensures
            r.deep_view() == VirtualLocationV::blank(),
    {
        let r = VirtualLocation {
            type_: String::new(),
            name: None,
            description: None,
            uri: String::new(),
            extra: StrMap::new(),
        };
        assert(r.deep_view() =~= VirtualLocationV::blank());
        r
    }
}

/// A link to something outside.
#[derive(Debug)]
pub struct Link {
    pub type_: String,
    pub href: String,
    pub rel: Option<String>,
    pub title: Option<String>,
    pub extra: StrMap<Value>,
}

/// What a [`Link`] stands for.
#[verifier::ext_equal]
pub struct LinkV {
    pub type_: Seq<char>,
    pub href: Seq<char>,
    pub rel: Option<Seq<char>>,
    pub title: Option<Seq<char>>,
    pub extra: Seq<(Seq<char>, ValueV)>,
}

impl DeepView for Link {
    type V = LinkV;

    open spec fn deep_view(&self) -> LinkV {
        LinkV {
            type_: self.type_.deep_view(),
            href: self.href.deep_view(),
            rel: self.rel.deep_view(),
            title: self.title.deep_view(),
            extra: self.extra.deep_view(),
        }
    }
}

impl CloneView for Link {
    fn clone_view(&self) -> (r: Self) {
        Link {
            type_: self.type_.clone_view(),
            href: self.href.clone_view(),
            rel: self.rel.clone_view(),
            title: self.title.clone_view(),
            extra: self.extra.clone_view(),
        }
    }
}

impl Clone for Link {
    fn clone(&self) -> (r: Self)
        ensures
            r.deep_view() == self.deep_view(),
    {
        self.clone_view()
    }
}

impl LinkV {
    /// Every part empty, absent or zero.
    pub open spec fn blank() -> LinkV {
        LinkV {
            type_: Seq::empty(),
            href: Seq::empty(),
            rel: None,
            title: None,
            extra: Seq::empty(),
        }
    }
}

impl Default for Link {
    fn default() -> (r: Self)
        ensures
            r.deep_view() == LinkV::blank(),
    {
        let r = Link {
            type_: String::new(),
            href: String::new(),
            rel: None,
            title: None,
            extra: StrMap::new(),
        };
        assert(r.deep_view() =~= LinkV::blank());
        r
    }
}

/// Someone who takes part.
#[derive(Debug)]
pub struct Participant {
    pub type_: String,
    pub name: Option<String>,
    pub email: Option<String>,
    pub roles: Vec<String>,
    pub participation_status: Option<String>,
    pub kind: Option<String>,
    pub extra: StrMap<Value>,
}

/// What a [`Participant`] stands for.
#[verifier::ext_equal]
pub struct ParticipantV {
    pub type_: Seq<char>,
    pub name: Option<Seq<char>>,
    pub email: Option<Seq<char>>,
    pub roles: Seq<Seq<char>>,
    pub participation_status: Option<Seq<char>>,
    pub kind: Option<Seq<char>>,
    pub extra: Seq<(Seq<char>, ValueV)>,
}

impl DeepView for Participant {
    type V = ParticipantV;

    open spec fn deep_view(&self) -> ParticipantV {
        ParticipantV {
            type_: self.type_.deep_view(),
            name: self.name.deep_view(),
            email: self.email.deep_view(),
            roles: self.roles.deep_view(),
            participation_status: self.participation_status.deep_view(),
            kind: self.kind.deep_view(),
            extra: self.extra.deep_view(),
        }
    }
}

impl CloneView for Participant {
    fn clone_view(&self) -> (r: Self) {
        Participant {
            type_: self.type_.clone_view(),
            name: self.name.clone_view(),
            email: self.email.clone_view(),
            roles: self.roles.clone_view(),
            participation_status: self.participation_status.clone_view(),
            kind: self.kind.clone_view(),
            extra: self.extra.clone_view(),
        }
    }
}

impl Clone for Participant {
    fn clone(&self) -> (r: Self)
        ensures
            r.deep_view() == self.deep_view(),
    {
        self.clone_view()
    }
}

impl ParticipantV {
    /// Every part empty, absent or zero.
    pub open spec fn blank() -> ParticipantV {
        ParticipantV {
            type_: Seq::empty(),
            name: None,
            email: None,
            roles: Seq::empty(),
            participation_status: None,
            kind: None,
            extra: Seq::empty(),
        }
    }
}

impl Default for Participant {
    fn default() -> (r: Self)
        ensures
            r.deep_view() == ParticipantV::blank(),
    {
        let r = Participant {
            type_: String::new(),
            name: None,
            email: None,
            roles: Vec::new(),
            participation_status: None,
            kind: None,
            extra: StrMap::new(),
        };
        assert(r.deep_view() =~= ParticipantV::blank());
        r
    }
}

/// When an alert goes off.
#[derive(Debug)]
pub enum Trigger {
    Offset { offset: String, relative_to: Option<String> },
    Absolute { when: LocalDateTime },
}

/// What a [`Trigger`] stands for.
#[verifier::ext_equal]
pub enum TriggerV {
    Offset { offset: Seq<char>, relative_to: Option<Seq<char>> },
    Absolute { when: Seq<char> },
}

impl DeepView for Trigger {
    type V = TriggerV;

    open spec fn deep_view(&self) -> TriggerV {
        match self {
            Trigger::Offset { offset, relative_to } => TriggerV::Offset {
                offset: offset@,
                relative_to: relative_to.deep_view(),
            },
            Trigger::Absolute { when } => TriggerV::Absolute { when: when.deep_view() },
        }
    }
}

impl CloneView for Trigger {
    fn clone_view(&self) -> (r: Self) {
        match self {
            Trigger::Offset { offset, relative_to } => Trigger::Offset {
                offset: offset.clone(),
                relative_to: relative_to.clone_view(),
            },
            Trigger::Absolute { when } => Trigger::Absolute { when: when.clone_view() },
        }
    }
}

/// A reminder.
#[derive(Debug)]
pub struct Alert {
    pub type_: String,
    pub trigger: Trigger,
    pub action: Option<String>,
    pub extra: StrMap<Value>,
}

/// What a [`Alert`] stands for.
#[verifier::ext_equal]
pub struct AlertV {
    pub type_: Seq<char>,
    pub trigger: TriggerV,
    pub action: Option<Seq<char>>,
    pub extra: Seq<(Seq<char>, ValueV)>,
}

impl DeepView for Alert {
    type V = AlertV;

    open spec fn deep_view(&self) -> AlertV {
        AlertV {
            type_: self.type_.deep_view(),
            trigger: self.trigger.deep_view(),
            action: self.action.deep_view(),
            extra: self.extra.deep_view(),
        }
    }
}

impl CloneView for Alert {
    fn clone_view(&self) -> (r: Self) {
        Alert {
            type_: self.type_.clone_view(),
            trigger: self.trigger.clone_view(),
            action: self.action.clone_view(),
            extra: self.extra.clone_view(),
        }
    }
}

impl Clone for Alert {
    fn clone(&self) -> (r: Self)
        ensures
            r.deep_view() == self.deep_view(),
    {
        self.clone_view()
    }
}

/// A JSCalendar `Event` as used over JMAP: the event properties of JSCalendar and the
/// JMAP CalendarEvent extensions.
#[derive(Debug)]
pub struct CalendarEvent {
    pub type_: String,
    /// The id that the server gave it. Absent when creating.
    pub id: Option<Id>,
    pub uid: Id,
    pub created: Option<String>,
    pub updated: Option<String>,
    pub sequence: Option<u32>,
    pub title: Option<String>,
    pub description: Option<String>,
    pub show_without_time: bool,
    pub start: LocalDateTime,
    pub time_zone: Option<String>,
    pub duration: String,
    pub status: Option<String>,
    pub free_busy_status: Option<String>,
    pub privacy: Option<String>,
    pub color: Option<String>,
    pub priority: Option<u8>,
    pub locations: Option<StrMap<Location>>,
    pub virtual_locations: Option<StrMap<VirtualLocation>>,
    pub links: Option<StrMap<Link>>,
    pub keywords: Option<BoolSet>,
    pub categories: Option<BoolSet>,
    pub participants: Option<StrMap<Participant>>,
    pub use_default_alerts: Option<bool>,
    pub alerts: Option<StrMap<Alert>>,
    pub recurrence_rules: Option<Vec<RecurrenceRule>>,
    /// Patches to single instances, by the text of the instance's `LocalDateTime`.
    pub recurrence_overrides: Option<StrMap<PatchObject>>,
    pub recurrence_id: Option<LocalDateTime>,
    /// JMAP Calendars: which calendars the event belongs to, usually one.
    pub calendar_ids: Option<StrMap<bool>>,
    pub is_draft: Option<bool>,
    pub is_origin: Option<bool>,
    /// The instant of `start` as the server computed it; only informational.
    pub utc_start: Option<String>,
    pub utc_end: Option<String>,
    pub extra: StrMap<Value>,
}

/// What a [`CalendarEvent`] stands for.
#[verifier::ext_equal]
pub struct CalendarEventV {
    pub type_: Seq<char>,
    pub id: Option<Seq<char>>,
    pub uid: Seq<char>,
    pub created: Option<Seq<char>>,
    pub updated: Option<Seq<char>>,
    pub sequence: Option<u32>,
    pub title: Option<Seq<char>>,
    pub description: Option<Seq<char>>,
    pub show_without_time: bool,
    pub start: Seq<char>,
    pub time_zone: Option<Seq<char>>,
    pub duration: Seq<char>,
    pub status: Option<Seq<char>>,
    pub free_busy_status: Option<Seq<char>>,
    pub privacy: Option<Seq<char>>,
    pub color: Option<Seq<char>>,
    pub priority: Option<u8>,
    pub locations: Option<Seq<(Seq<char>, LocationV)>>,
    pub virtual_locations: Option<Seq<(Seq<char>, VirtualLocationV)>>,
    pub links: Option<Seq<(Seq<char>, LinkV)>>,
    pub keywords: Option<Seq<(Seq<char>, bool)>>,
    pub categories: Option<Seq<(Seq<char>, bool)>>,
    pub participants: Option<Seq<(Seq<char>, ParticipantV)>>,
    pub use_default_alerts: Option<bool>,
    pub alerts: Option<Seq<(Seq<char>, AlertV)>>,
    pub recurrence_rules: Option<Seq<RecurrenceRuleV>>,
    pub recurrence_overrides: Option<Seq<(Seq<char>, Seq<(Seq<char>, ValueV)>)>>,
    pub recurrence_id: Option<Seq<char>>,
    pub calendar_ids: Option<Seq<(Seq<char>, bool)>>,
    pub is_draft: Option<bool>,
    pub is_origin: Option<bool>,
    pub utc_start: Option<Seq<char>>,
    pub utc_end: Option<Seq<char>>,
    pub extra: Seq<(Seq<char>, ValueV)>,
}

impl DeepView for CalendarEvent {
    type V = CalendarEventV;

    open spec fn deep_view(&self) -> CalendarEventV {
        CalendarEventV {
            type_: self.type_.deep_view(),
            id: self.id.deep_view(),
            uid: self.uid.deep_view(),
            created: self.created.deep_view(),
            updated: self.updated.deep_view(),
            sequence: self.sequence.deep_view(),
            title: self.title.deep_view(),
            description: self.description.deep_view(),
            show_without_time: self.show_without_time.deep_view(),
            start: self.start.deep_view(),
            time_zone: self.time_zone.deep_view(),
            duration: self.duration.deep_view(),
            status: self.status.deep_view(),
            free_busy_status: self.free_busy_status.deep_view(),
            privacy: self.privacy.deep_view(),
            color: self.color.deep_view(),
            priority: self.priority.deep_view(),
            locations: self.locations.deep_view(),
            virtual_locations: self.virtual_locations.deep_view(),
            links: self.links.deep_view(),
            keywords: self.keywords.deep_view(),
            categories: self.categories.deep_view(),
            participants: self.participants.deep_view(),
            use_default_alerts: self.use_default_alerts.deep_view(),
            alerts: self.alerts.deep_view(),
            recurrence_rules: self.recurrence_rules.deep_view(),
            recurrence_overrides: self.recurrence_overrides.deep_view(),
            recurrence_id: self.recurrence_id.deep_view(),
            calendar_ids: self.calendar_ids.deep_view(),
            is_draft: self.is_draft.deep_view(),
            is_origin: self.is_origin.deep_view(),
            utc_start: self.utc_start.deep_view(),
            utc_end: self.utc_end.deep_view(),
            extra: self.extra.deep_view(),
        }
    }
}

impl CloneView for CalendarEvent {
    fn clone_view(&self) -> (r: Self) {
        CalendarEvent {
            type_: self.type_.clone_view(),
            id: self.id.clone_view(),
            uid: self.uid.clone_view(),
            created: self.created.clone_view(),
            updated: self.updated.clone_view(),
            sequence: self.sequence.clone_view(),
            title: self.title.clone_view(),
            description: self.description.clone_view(),
            show_without_time: self.show_without_time.clone_view(),
            start: self.start.clone_view(),
            time_zone: self.time_zone.clone_view(),
            duration: self.duration.clone_view(),
            status: self.status.clone_view(),
            free_busy_status: self.free_busy_status.clone_view(),
            privacy: self.privacy.clone_view(),
            color: self.color.clone_view(),
            priority: self.priority.clone_view(),
            locations: self.locations.clone_view(),
            virtual_locations: self.virtual_locations.clone_view(),
            links: self.links.clone_view(),
            keywords: self.keywords.clone_view(),
            categories: self.categories.clone_view(),
            participants: self.participants.clone_view(),
            use_default_alerts: self.use_default_alerts.clone_view(),
            alerts: self.alerts.clone_view(),
            recurrence_rules: self.recurrence_rules.clone_view(),
            recurrence_overrides: self.recurrence_overrides.clone_view(),
            recurrence_id: self.recurrence_id.clone_view(),
            calendar_ids: self.calendar_ids.clone_view(),
            is_draft: self.is_draft.clone_view(),
            is_origin: self.is_origin.clone_view(),
            utc_start: self.utc_start.clone_view(),
            utc_end: self.utc_end.clone_view(),
            extra: self.extra.clone_view(),
        }
    }
}

impl Clone for CalendarEvent {
    fn clone(&self) -> (r: Self)
        ensures
            r.deep_view() == self.deep_view(),
    {
        self.clone_view()
    }
}

impl CalendarEventV {
    /// An event with nothing but its uid and its start.
    pub open spec fn bare(uid: Seq<char>, start: Seq<char>) -> CalendarEventV {
        CalendarEventV {
            type_: "Event"@,
            id: None,
            uid,
            created: None,
            updated: None,
            sequence: None,
            title: None,
            description: None,
            show_without_time: false,
            start,
            time_zone: None,
            duration: "PT0S"@,
            status: None,
            free_busy_status: None,
            privacy: None,
            color: None,
            priority: None,
            locations: None,
            virtual_locations: None,
            links: None,
            keywords: None,
            categories: None,
            participants: None,
            use_default_alerts: None,
            alerts: None,
            recurrence_rules: None,
            recurrence_overrides: None,
            recurrence_id: None,
            calendar_ids: None,
            is_draft: None,
            is_origin: None,
            utc_start: None,
            utc_end: None,
            extra: Seq::empty(),
        }
    }
}

impl CalendarEvent {
    pub fn new(uid: &str, start: LocalDateTime) -> (r: Self)
        ensures
            r.deep_view() == CalendarEventV::bare(uid@, start.deep_view()),
    {
        CalendarEvent {
            type_: "Event".to_string(),
            id: None,
            uid: uid.to_string(),
            created: None,
            updated: None,
            sequence: None,
            title: None,
            description: None,
            show_without_time: false,
            start,
            time_zone: None,
            duration: "PT0S".to_string(),
            status: None,
            free_busy_status: None,
            privacy: None,
            color: None,
            priority: None,
            locations: None,
            virtual_locations: None,
            links: None,
            keywords: None,
            categories: None,
            participants: None,
            use_default_alerts: None,
            alerts: None,
            recurrence_rules: None,
            recurrence_overrides: None,
            recurrence_id: None,
            calendar_ids: None,
            is_draft: None,
            is_origin: None,
            utc_start: None,
            utc_end: None,
            extra: StrMap::new(),
        }
    }
}

/// Rights that a principal has on a `Calendar`.
#[derive(Debug, Clone, Copy, PartialEq, Eq, Structural)]
pub struct CalendarRights {
    pub may_read_free_busy: bool,
    pub may_read_items: bool,
    pub may_add_items: bool,
    pub may_update_private: bool,
    pub may_update_own: bool,
    pub may_update_all: bool,
    pub may_remove_own: bool,
    pub may_remove_all: bool,
    pub may_admin: bool,
    pub may_delete: bool,
}

impl DeepView for CalendarRights {
    type V = CalendarRights;

    open spec fn deep_view(&self) -> CalendarRights {
        *self
    }
}

impl CloneView for CalendarRights {
    fn clone_view(&self) -> (r: Self) {
        *self
    }
}

impl Default for CalendarRights {
    /// No rights at all.
    fn default() -> (r: Self)
        ensures
            r == (CalendarRights {
                may_read_free_busy: false,
                may_read_items: false,
                may_add_items: false,
                may_update_private: false,
                may_update_own: false,
                may_update_all: false,
                may_remove_own: false,
                may_remove_all: false,
                may_admin: false,
                may_delete: false,
            }),
    {
        CalendarRights {
            may_read_free_busy: false,
            may_read_items: false,
            may_add_items: false,
            may_update_private: false,
            may_update_own: false,
            may_update_all: false,
            may_remove_own: false,
            may_remove_all: false,
            may_admin: false,
            may_delete: false,
        }
    }
}

/// A JMAP calendar.
#[derive(Debug)]
pub struct Calendar {
    pub id: Option<Id>,
    pub name: String,
    pub description: Option<String>,
    pub color: Option<String>,
    pub sort_order: u32,
    pub is_subscribed: bool,
    pub is_visible: bool,
    pub my_rights: Option<CalendarRights>,
    /// Sharing grants: the JMAP account id of the other user and the rights granted to them.
    /// Only the owner of the calendar can set them.
    pub share_with: Option<StrMap<CalendarRights>>,
    pub extra: StrMap<Value>,
}

/// What a [`Calendar`] stands for.
#[verifier::ext_equal]
pub struct CalendarV {
    pub id: Option<Seq<char>>,
    pub name: Seq<char>,
    pub description: Option<Seq<char>>,
    pub color: Option<Seq<char>>,
    pub sort_order: u32,
    pub is_subscribed: bool,
    pub is_visible: bool,
    pub my_rights: Option<CalendarRights>,
    pub share_with: Option<Seq<(Seq<char>, CalendarRights)>>,
    pub extra: Seq<(Seq<char>, ValueV)>,
}

impl DeepView for Calendar {
    type V = CalendarV;

    open spec fn deep_view(&self) -> CalendarV {
        CalendarV {
            id: self.id.deep_view(),
            name: self.name.deep_view(),
            description: self.description.deep_view(),
            color: self.color.deep_view(),
            sort_order: self.sort_order.deep_view(),
            is_subscribed: self.is_subscribed.deep_view(),
            is_visible: self.is_visible.deep_view(),
            my_rights: self.my_rights.deep_view(),
            share_with: self.share_with.deep_view(),
            extra: self.extra.deep_view(),
        }
    }
}

impl CloneView for Calendar {
    fn clone_view(&self) -> (r: Self) {
        Calendar {
            id: self.id.clone_view(),
            name: self.name.clone_view(),
            description: self.description.clone_view(),
            color: self.color.clone_view(),
            sort_order: self.sort_order.clone_view(),
            is_subscribed: self.is_subscribed.clone_view(),
            is_visible: self.is_visible.clone_view(),
            my_rights: self.my_rights.clone_view(),
            share_with: self.share_with.clone_view(),
            extra: self.extra.clone_view(),
        }
    }
}

impl Clone for Calendar {
    fn clone(&self) -> (r: Self)
        ensures
            r.deep_view() == self.deep_view(),
    {
        self.clone_view()
    }
}

impl Calendar {
    pub fn new(name: &str) -> (r: Self)
        ensures
            r.deep_view() == (CalendarV {
                id: None,
                name: name@,
                description: None,
                color: None,
                sort_order: 0,
                is_subscribed: true,
                is_visible: true,
                my_rights: None,
                share_with: None,
                extra: Seq::empty(),
            }),
    {
        Calendar {
            id: None,
            name: name.to_string(),
            description: None,
            color: None,
            sort_order: 0,
            is_subscribed: true,
            is_visible: true,
            my_rights: None,
            share_with: None,
            extra: StrMap::new(),
        }
    }
}

impl CalendarRights {
    /// Read-only access: events and free/busy can be seen, nothing else.
    pub fn view_only() -> (r: Self)
        ensures
            r == (CalendarRights {
                may_read_free_busy: true,
                may_read_items: true,
                may_add_items: false,
                may_update_private: false,
                may_update_own: false,
                may_update_all: false,
                may_remove_own: false,
                may_remove_all: false,
                may_admin: false,
                may_delete: false,
            }),
    {
        CalendarRights {
            may_read_free_busy: true,
            may_read_items: true,
            may_add_items: false,
            may_update_private: false,
            may_update_own: false,
            may_update_all: false,
            may_remove_own: false,
            may_remove_all: false,
            may_admin: false,
            may_delete: false,
        }
    }

    /// Read and write access to what the calendar holds, without the rights to administer,
    /// share or delete the calendar itself.
    pub fn can_edit() -> (r: Self)
        ensures
            r == (CalendarRights {
                may_read_free_busy: true,
                may_read_items: true,
                may_add_items: true,
                may_update_private: true,
                may_update_own: true,
                may_update_all: true,
                may_remove_own: true,
                may_remove_all: true,
                may_admin: false,
                may_delete: false,
            }),
    {
        CalendarRights {
            may_read_free_busy: true,
            may_read_items: true,
            may_add_items: true,
            may_update_private: true,
            may_update_own: true,
            may_update_all: true,
            may_remove_own: true,
            may_remove_all: true,
            may_admin: false,
            may_delete: false,
        }
    }
}

/// What a time is written as reads back as that time.
pub proof fn local_time_of_text(t: NaiveDateTime)
    requires
        t.on_clock(),
    ensures
        local_time(iso_text(t)) == Some(t),
{
    iso_text_reads_back(t);
}

/// A `LocalDateTime` that stands for a time stands for one that a clock can show.
pub proof fn local_time_on_clock(s: Seq<char>)
    ensures
        local_time(s) is Some ==> local_time(s)->0.on_clock(),
{
}

/// Whether a duration's text is the default one, which is left out of what is sent.
pub fn is_zero_duration(d: &str) -> (r: bool)
    ensures
        r == (d@ == "PT0S"@),
{
    str_eq(d, "PT0S")
}

} // verus!
