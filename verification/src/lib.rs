//! A calendar client for JMAP servers: everything that it computes and decides.
//!
//! The data model is JSCalendar and JSContact, with recurrence, time zones, iCalendar and vCard.
//! On it stand the views, the forms, the accounts and the protocol, and a server in memory to try
//! the client with. Input and output are left to the program around the library.

// Text, numbers and collections.
pub mod text;
pub mod numbers;
pub mod hex;
pub mod collections;
pub mod json;

// Dates and times.
pub mod calendar;
pub mod timetext;
pub mod duration;
pub mod tz;
pub mod regions;
pub mod base_laws;

// Events and contacts.
pub mod jscalendar;
pub mod recurrence;
pub mod recurrence_laws;
pub mod byday_laws;
pub mod interval_laws;
pub mod expansion_laws;
pub mod jscontact;
pub mod birthday_laws;

// iCalendar and vCard.
pub mod contentline;
pub mod ics;
pub mod ics_laws;
pub mod rrule_laws;
pub mod feed_laws;
pub mod vcard;
pub mod vcard_laws;

// The protocol, its client, and a server in memory.
pub mod error;
pub mod protocol;
pub mod client;
pub mod mock;
pub mod mock_laws;
pub mod exchange_laws;

// Requests and addresses.
pub mod webutil;
pub mod csrf;
pub mod netguard;
pub mod urls;
pub mod assets;
pub mod wire_laws;

// Accounts.
pub mod users;
pub mod auth;
pub mod admin;
pub mod state;
pub mod prefs;
pub mod settings;
pub mod account_laws;

// Views.
pub mod view;
pub mod layout;
pub mod grid;
pub mod page_laws;
pub mod view_laws;
pub mod params;
pub mod sidebar;
pub mod shell;
pub mod frame_laws;

// Forms.
pub mod options;
pub mod eventform;
pub mod contacts;
pub mod calendarform;
pub mod form_laws;
pub mod card_laws;
