//! The notification payload model and its wire encoding.
//!
//! The encoding rules are the delicate part of the protocol: title, subtitle
//! and body are unions whose shape is told apart only by which field names
//! appear; an alert or a sound is either a bare string or an object; boolean
//! flags go on the wire as the integer `1` or are omitted entirely (a `false`
//! flag is indistinguishable from an unset one); and caller-supplied custom
//! objects are flattened next to the structured block. The spec functions
//! below pin down the exact member list and text of every encoding.
use vstd::prelude::*;

use crate::json::JsonValue;
use crate::json::dec_seq;
use crate::json::printed;
use crate::json::printed_elems;
use crate::json::printed_members;
use crate::json::quoted;

verus! {

/// Why building a payload from caller data failed.
#[derive(Debug)]
pub enum JsonObjectError {
    /// The caller-supplied value could not be brought into the library's
    /// JSON model at all; the text names the cause.
    SerializationError { msg: String },
    /// The caller-supplied value was not a JSON object.
    NotAnObjectError,
}

/// A payload-construction failure, distinct from push-time failures.
#[derive(Debug)]
pub enum BuildError {
    ConvertJsonObjectError { source: JsonObjectError },
}

/// An alert title: either a literal string or a localization key with
/// optional arguments. The two shapes are mutually exclusive.
pub enum Title {
    Normal(String),
    Localized { key: String, args: Option<Vec<String>> },
}

/// An alert subtitle, with the same two shapes as a title.
pub enum Subtitle {
    Normal(String),
    Localized { key: String, args: Option<Vec<String>> },
}

/// An alert body, with the same two shapes as a title.
pub enum Body {
    Normal(String),
    Localized { key: String, args: Option<Vec<String>> },
}

/// An alert: a bare body string, or a structured form whose title, subtitle
/// and body members are flattened into one object.
pub enum Alert {
    Body(String),
    Full {
        title: Option<Title>,
        subtitle: Option<Subtitle>,
        body: Option<Body>,
        launch_image: Option<String>,
    },
}

/// A sound: a bare resource name, or a structured form with a critical flag
/// (encoded as the integer 1 or omitted) and an optional resource name.
pub enum Sound {
    Regular(String),
    Critical { critical: Option<bool>, name: Option<String> },
}

/// How the notification may interrupt the user; serialized in kebab case.
pub enum InterruptionLevel {
    Passive,
    Active,
    TimeSensitive,
    Critical,
}

/// The structured notification block. Every field is optional; an empty
/// block encodes as the empty object.
pub struct Notification {
    pub alert: Option<Alert>,
    pub badge: Option<u32>,
    pub sound: Option<Sound>,
    pub thread_id: Option<String>,
    pub category: Option<String>,
    pub content_available: Option<bool>,
    pub mutable_content: Option<bool>,
    pub target_content_id: Option<String>,
    pub interruption_level: Option<InterruptionLevel>,
    pub filter_criteria: Option<String>,
    pub stale_date: Option<u64>,
    pub content_state: Option<Vec<(String, JsonValue)>>,
    pub timestamp: Option<u64>,
    pub event: Option<String>,
    pub dismissal_date: Option<u64>,
    pub attributes_type: Option<String>,
    pub attributes: Option<Vec<(String, JsonValue)>>,
}

/// The full payload: the structured block under the fixed key `aps`, plus
/// caller-supplied custom members flattened alongside it.
pub struct Payload {
    pub aps: Notification,
    pub custom: Option<Vec<(String, JsonValue)>>,
}

/// The encoded form of one object member: its key and its value's JSON text.
pub open spec fn member_model(p: (String, JsonValue)) -> (Seq<char>, Seq<char>) {
    (p.0@, printed(p.1))
}

/// The encoded form of a member list.
pub open spec fn members_model(ms: Seq<(String, JsonValue)>) -> Seq<(Seq<char>, Seq<char>)> {
    ms.map_values(|p: (String, JsonValue)| member_model(p))
}

/// The JSON text of the members `ms[i..]`, comma separated.
pub open spec fn members_from(ms: Seq<(Seq<char>, Seq<char>)>, i: int) -> Seq<char>
    decreases ms.len() - i,
{
    if i < 0 || i >= ms.len() {
        Seq::empty()
    } else if i == ms.len() - 1 {
        quoted(ms[i].0) + seq![':'] + ms[i].1
    } else {
        quoted(ms[i].0) + seq![':'] + ms[i].1 + seq![','] + members_from(ms, i + 1)
    }
}

/// The JSON text of an object with the given members.
pub open spec fn obj_text(ms: Seq<(Seq<char>, Seq<char>)>) -> Seq<char> {
    seq!['{'] + members_from(ms, 0) + seq!['}']
}

/// A member list holding one member when `present`, and none otherwise.
pub open spec fn opt_member(present: bool, key: Seq<char>, text: Seq<char>) -> Seq<
    (Seq<char>, Seq<char>),
> {
    if present {
        seq![(key, text)]
    } else {
        Seq::empty()
    }
}

/// The encoding of a boolean flag: the member is present with value `1`
/// exactly when the flag is set to true; a false or unset flag is omitted.
pub open spec fn flag_member(flag: Option<bool>, key: Seq<char>) -> Seq<(Seq<char>, Seq<char>)> {
    opt_member(flag == Some(true), key, seq!['1'])
}

/// The JSON text of an array of strings.
pub open spec fn str_items(ss: Seq<String>, i: int) -> Seq<char>
    decreases ss.len() - i,
{
    if i < 0 || i >= ss.len() {
        Seq::empty()
    } else if i == ss.len() - 1 {
        quoted(ss[i]@)
    } else {
        quoted(ss[i]@) + seq![','] + str_items(ss, i + 1)
    }
}

/// The JSON text of an array of strings, brackets included.
pub open spec fn str_array_text(ss: Seq<String>) -> Seq<char> {
    seq!['['] + str_items(ss, 0) + seq![']']
}

/// The members a title contributes to the surrounding alert object.
pub open spec fn title_members(t: Option<Title>) -> Seq<(Seq<char>, Seq<char>)> {
    match t {
        None => Seq::empty(),
        Some(Title::Normal(s)) => seq![("title"@, quoted(s@))],
        Some(Title::Localized { key, args }) => seq![("title-loc-key"@, quoted(key@))] + (match args {
            None => Seq::empty(),
            Some(a) => seq![("title-loc-args"@, str_array_text(a@))],
        }),
    }
}

/// The members a subtitle contributes to the surrounding alert object.
pub open spec fn subtitle_members(t: Option<Subtitle>) -> Seq<(Seq<char>, Seq<char>)> {
    match t {
        None => Seq::empty(),
        Some(Subtitle::Normal(s)) => seq![("subtitle"@, quoted(s@))],
        Some(Subtitle::Localized { key, args }) => seq![("subtitle-loc-key"@, quoted(key@))] + (
        match args {
            None => Seq::empty(),
            Some(a) => seq![("subtitle-loc-args"@, str_array_text(a@))],
        }),
    }
}

/// The members a body contributes to the surrounding alert object.
pub open spec fn body_members(t: Option<Body>) -> Seq<(Seq<char>, Seq<char>)> {
    match t {
        None => Seq::empty(),
        Some(Body::Normal(s)) => seq![("body"@, quoted(s@))],
        Some(Body::Localized { key, args }) => seq![("loc-key"@, quoted(key@))] + (match args {
            None => Seq::empty(),
            Some(a) => seq![("loc-args"@, str_array_text(a@))],
        }),
    }
}

/// The members of the structured alert object: title, subtitle and body
/// members flattened side by side, then the launch image.
pub open spec fn alert_full_members(
    title: Option<Title>,
    subtitle: Option<Subtitle>,
    body: Option<Body>,
    launch_image: Option<String>,
) -> Seq<(Seq<char>, Seq<char>)> {
    title_members(title) + subtitle_members(subtitle) + body_members(body) + (match launch_image {
        None => Seq::empty(),
        Some(img) => seq![("launch-image"@, quoted(img@))],
    })
}

/// The JSON text of an alert: a bare string or the structured object.
pub open spec fn alert_text(a: Alert) -> Seq<char> {
    match a {
        Alert::Body(s) => quoted(s@),
        Alert::Full { title, subtitle, body, launch_image } => obj_text(
            alert_full_members(title, subtitle, body, launch_image),
        ),
    }
}

/// The members of the structured sound object.
pub open spec fn sound_members(critical: Option<bool>, name: Option<String>) -> Seq<
    (Seq<char>, Seq<char>),
> {
    flag_member(critical, "critical"@) + (match name {
        None => Seq::empty(),
        Some(s) => seq![("name"@, quoted(s@))],
    })
}

/// The JSON text of a sound: a bare string or the structured object.
pub open spec fn sound_text(s: Sound) -> Seq<char> {
    match s {
        Sound::Regular(name) => quoted(name@),
        Sound::Critical { critical, name } => obj_text(sound_members(critical, name)),
    }
}

/// The kebab-case name of an interruption level.
pub open spec fn level_name(l: InterruptionLevel) -> Seq<char> {
    match l {
        InterruptionLevel::Passive => "passive"@,
        InterruptionLevel::Active => "active"@,
        InterruptionLevel::TimeSensitive => "time-sensitive"@,
        InterruptionLevel::Critical => "critical"@,
    }
}

/// A member whose value is a string, present only when the field is set.
pub open spec fn opt_str_member(v: Option<String>, key: Seq<char>) -> Seq<
    (Seq<char>, Seq<char>),
> {
    match v {
        None => Seq::empty(),
        Some(s) => seq![(key, quoted(s@))],
    }
}

/// A member whose value is an unsigned number, present only when set.
pub open spec fn opt_u64_member(v: Option<u64>, key: Seq<char>) -> Seq<(Seq<char>, Seq<char>)> {
    match v {
        None => Seq::empty(),
        Some(n) => seq![(key, dec_seq(n as nat))],
    }
}

/// A member holding a caller-supplied object, present only when set.
pub open spec fn opt_obj_member(v: Option<Vec<(String, JsonValue)>>, key: Seq<char>) -> Seq<
    (Seq<char>, Seq<char>),
> {
    match v {
        None => Seq::empty(),
        Some(ms) => seq![(key, obj_text(members_model(ms@)))],
    }
}

/// The first third of the block's members: alert, badge, sound, thread id,
/// category and the content-available flag, in wire order.
pub open spec fn front_members(n: Notification) -> Seq<(Seq<char>, Seq<char>)> {
    (match n.alert {
        None => Seq::empty(),
        Some(a) => seq![("alert"@, alert_text(a))],
    }) + (match n.badge {
        None => Seq::empty(),
        Some(b) => seq![("badge"@, dec_seq(b as nat))],
    }) + (match n.sound {
        None => Seq::empty(),
        Some(s) => seq![("sound"@, sound_text(s))],
    }) + opt_str_member(n.thread_id, "thread-id"@) + opt_str_member(n.category, "category"@)
        + flag_member(n.content_available, "content-available"@)
}

/// The middle third: the mutable-content flag, target content id,
/// interruption level, filter criteria, stale date and content state.
pub open spec fn mid_members(n: Notification) -> Seq<(Seq<char>, Seq<char>)> {
    flag_member(n.mutable_content, "mutable-content"@) + opt_str_member(
        n.target_content_id,
        "target-content-id"@,
    ) + (match n.interruption_level {
        None => Seq::empty(),
        Some(l) => seq![("interruption-level"@, quoted(level_name(l)))],
    }) + opt_str_member(n.filter_criteria, "filter-criteria"@) + opt_u64_member(
        n.stale_date,
        "stale-date"@,
    ) + opt_obj_member(n.content_state, "content-state"@)
}

/// The last third: timestamp, event, dismissal date, attributes type and
/// the attributes object.
pub open spec fn back_members(n: Notification) -> Seq<(Seq<char>, Seq<char>)> {
    opt_u64_member(n.timestamp, "timestamp"@) + opt_str_member(n.event, "event"@) + opt_u64_member(
        n.dismissal_date,
        "dismissal-date"@,
    ) + opt_str_member(n.attributes_type, "attributes-type"@) + opt_obj_member(
        n.attributes,
        "attributes"@,
    )
}

/// The member list of the structured notification block, in wire order.
/// Unset fields contribute nothing; the two boolean flags follow the
/// integer-or-absent rule of `flag_member`.
pub open spec fn notification_model(n: Notification) -> Seq<(Seq<char>, Seq<char>)> {
    front_members(n) + mid_members(n) + back_members(n)
}

/// The JSON text of the structured notification block.
pub open spec fn notification_text(n: Notification) -> Seq<char> {
    obj_text(notification_model(n))
}

/// The member list of the full payload: the block under `aps`, then the
/// custom members in the order the caller gave them. Duplicate keys are not
/// reconciled: a custom member named `aps` is emitted beside the block's
/// member, and the receiving parser decides which one it keeps.
pub open spec fn payload_model(p: Payload) -> Seq<(Seq<char>, Seq<char>)> {
    seq![("aps"@, notification_text(p.aps))] + (match p.custom {
        None => Seq::empty(),
        Some(ms) => members_model(ms@),
    })
}

/// The JSON text of the full payload.
pub open spec fn payload_text(p: Payload) -> Seq<char> {
    obj_text(payload_model(p))
}

/// A member-list model distributes over concatenation.
proof fn lemma_members_model_add(a: Seq<(String, JsonValue)>, b: Seq<(String, JsonValue)>)
    ensures
        members_model(a + b) == members_model(a) + members_model(b),
{
    assert(members_model(a + b) =~= members_model(a) + members_model(b));
}

/// The printer's member recursion agrees with the model's text recursion.
proof fn lemma_members_match(members: Seq<(String, JsonValue)>, i: int)
    ensures
        printed_members(members, i) == members_from(members_model(members), i),
    decreases members.len() - i,
{
    if 0 <= i && i < members.len() - 1 {
        lemma_members_match(members, i + 1);
    }
}

/// Adds one member at the end of the list under construction.
fn push_member(ms: &mut Vec<(String, JsonValue)>, key: &str, v: JsonValue)
    ensures
        members_model(final(ms)@) == members_model(old(ms)@).push((key@, printed(v))),
{
    let k = key.to_owned();
    let ghost gv = v;
    ms.push((k, v));
    proof {
        assert(members_model(final(ms)@) =~~= members_model(old(ms)@).push((key@, printed(gv))));
    }
}

/// The elementwise string values of `elems` print as `str_items` says.
proof fn lemma_str_items(elems: Seq<JsonValue>, ss: Seq<String>, i: int)
    requires
        elems.len() == ss.len(),
        forall|j: int| 0 <= j < ss.len() ==> #[trigger] elems[j] == JsonValue::Str(ss[j]),
    ensures
        printed_elems(elems, i) == str_items(ss, i),
    decreases ss.len() - i,
{
    if 0 <= i && i < ss.len() {
        assert(elems[i] == JsonValue::Str(ss[i]));
        assert(printed(elems[i]) == quoted(ss[i]@));
        if i < ss.len() - 1 {
            lemma_str_items(elems, ss, i + 1);
        }
    }
}

/// The JSON array value holding the given strings.
fn str_vec_to_value(ss: &Vec<String>) -> (v: JsonValue)
    ensures
        printed(v) == str_array_text(ss@),
{
    let mut elems: Vec<JsonValue> = Vec::new();
    let n = ss.len();
    let mut i: usize = 0;
    while i < n
        invariant
            n == ss@.len(),
            i <= n,
            elems@.len() == i,
            forall|j: int| 0 <= j < i ==> #[trigger] elems@[j] == JsonValue::Str(ss@[j]),
        decreases n - i,
    {
        let s = ss[i].clone();
        elems.push(JsonValue::Str(s));
        i = i + 1;
    }
    proof {
        lemma_str_items(elems@, ss@, 0);
    }
    JsonValue::Arr(elems)
}

/// The kebab-case name of an interruption level, as executable code.
fn level_str(l: &InterruptionLevel) -> (s: &'static str)
    ensures
        s@ == level_name(*l),
{
    match l {
        InterruptionLevel::Passive => "passive",
        InterruptionLevel::Active => "active",
        InterruptionLevel::TimeSensitive => "time-sensitive",
        InterruptionLevel::Critical => "critical",
    }
}

/// Adds the members a title contributes to the surrounding alert object.
fn push_title_members(ms: &mut Vec<(String, JsonValue)>, t: &Title)
    ensures
        members_model(final(ms)@) == members_model(old(ms)@) + title_members(Some(*t)),
{
    match t {
        Title::Normal(s) => {
            push_member(ms, "title", JsonValue::Str(s.clone()));
            proof {
                assert(members_model(final(ms)@) =~~= members_model(old(ms)@) + title_members(
                    Some(*t),
                ));
            }
        },
        Title::Localized { key, args } => {
            push_member(ms, "title-loc-key", JsonValue::Str(key.clone()));
            if let Some(a) = args {
                let av = str_vec_to_value(a);
                push_member(ms, "title-loc-args", av);
            }
            proof {
                assert(members_model(final(ms)@) =~~= members_model(old(ms)@) + title_members(
                    Some(*t),
                ));
            }
        },
    }
}

/// Adds the members a subtitle contributes to the surrounding alert object.
fn push_subtitle_members(ms: &mut Vec<(String, JsonValue)>, t: &Subtitle)
    ensures
        members_model(final(ms)@) == members_model(old(ms)@) + subtitle_members(Some(*t)),
{
    match t {
        Subtitle::Normal(s) => {
            push_member(ms, "subtitle", JsonValue::Str(s.clone()));
            proof {
                assert(members_model(final(ms)@) =~~= members_model(old(ms)@) + subtitle_members(
                    Some(*t),
                ));
            }
        },
        Subtitle::Localized { key, args } => {
            push_member(ms, "subtitle-loc-key", JsonValue::Str(key.clone()));
            if let Some(a) = args {
                let av = str_vec_to_value(a);
                push_member(ms, "subtitle-loc-args", av);
            }
            proof {
                assert(members_model(final(ms)@) =~~= members_model(old(ms)@) + subtitle_members(
                    Some(*t),
                ));
            }
        },
    }
}

/// Adds the members a body contributes to the surrounding alert object.
fn push_body_members(ms: &mut Vec<(String, JsonValue)>, t: &Body)
    ensures
        members_model(final(ms)@) == members_model(old(ms)@) + body_members(Some(*t)),
{
    match t {
        Body::Normal(s) => {
            push_member(ms, "body", JsonValue::Str(s.clone()));
            proof {
                assert(members_model(final(ms)@) =~~= members_model(old(ms)@) + body_members(
                    Some(*t),
                ));
            }
        },
        Body::Localized { key, args } => {
            push_member(ms, "loc-key", JsonValue::Str(key.clone()));
            if let Some(a) = args {
                let av = str_vec_to_value(a);
                push_member(ms, "loc-args", av);
            }
            proof {
                assert(members_model(final(ms)@) =~~= members_model(old(ms)@) + body_members(
                    Some(*t),
                ));
            }
        },
    }
}

impl Alert {
    /// The JSON value an alert encodes to.
    pub fn to_value(&self) -> (v: JsonValue)
        ensures
            printed(v) == alert_text(*self),
    {
        match self {
            Alert::Body(s) => JsonValue::Str(s.clone()),
            Alert::Full { title, subtitle, body, launch_image } => {
                let mut ms: Vec<(String, JsonValue)> = Vec::new();
                if let Some(t) = title {
                    push_title_members(&mut ms, t);
                }
                if let Some(st) = subtitle {
                    push_subtitle_members(&mut ms, st);
                }
                if let Some(b) = body {
                    push_body_members(&mut ms, b);
                }
                if let Some(img) = launch_image {
                    push_member(&mut ms, "launch-image", JsonValue::Str(img.clone()));
                }
                proof {
                    assert(members_model(ms@) =~~= alert_full_members(
                        *title,
                        *subtitle,
                        *body,
                        *launch_image,
                    ));
                    lemma_members_match(ms@, 0);
                }
                JsonValue::Obj(ms)
            },
        }
    }
}

impl Sound {
    /// The JSON value a sound encodes to.
    pub fn to_value(&self) -> (v: JsonValue)
        ensures
            printed(v) == sound_text(*self),
    {
        match self {
            Sound::Regular(name) => JsonValue::Str(name.clone()),
            Sound::Critical { critical, name } => {
                let mut ms: Vec<(String, JsonValue)> = Vec::new();
                if let Some(c) = critical {
                    if *c {
                        push_member(&mut ms, "critical", JsonValue::UInt(1));
                    }
                }
                if let Some(s) = name {
                    push_member(&mut ms, "name", JsonValue::Str(s.clone()));
                }
                proof {
                    assert(members_model(ms@) =~~= sound_members(*critical, *name));
                    lemma_members_match(ms@, 0);
                }
                JsonValue::Obj(ms)
            },
        }
    }
}

/// Adds the first third of the block's members to the list.
#[verifier::rlimit(60)]
fn push_front_members(n: &Notification, ms: &mut Vec<(String, JsonValue)>)
    ensures
        members_model(final(ms)@) == members_model(old(ms)@) + front_members(*n),
{
    let ghost mut mdl: Seq<(Seq<char>, Seq<char>)> = members_model(ms@);
    if let Some(a) = &n.alert {
        let av = a.to_value();
        push_member(ms, "alert", av);
    }
    proof {
        mdl = mdl + (if n.alert is Some {
            seq![("alert"@, alert_text(n.alert->0))]
        } else {
            Seq::empty()
        });
        assert(members_model(ms@) =~= mdl);
    }
    if let Some(b) = &n.badge {
        let bv = *b;
        push_member(ms, "badge", JsonValue::UInt(bv as u64));
    }
    proof {
        mdl = mdl + (if n.badge is Some {
            seq![("badge"@, dec_seq(n.badge->0 as nat))]
        } else {
            Seq::empty()
        });
        assert(members_model(ms@) =~= mdl);
    }
    if let Some(s) = &n.sound {
        let sv = s.to_value();
        push_member(ms, "sound", sv);
    }
    proof {
        mdl = mdl + (if n.sound is Some {
            seq![("sound"@, sound_text(n.sound->0))]
        } else {
            Seq::empty()
        });
        assert(members_model(ms@) =~= mdl);
    }
    if let Some(s) = &n.thread_id {
        push_member(ms, "thread-id", JsonValue::Str(s.clone()));
    }
    proof {
        mdl = mdl + opt_str_member(n.thread_id, "thread-id"@);
        assert(members_model(ms@) =~= mdl);
    }
    if let Some(s) = &n.category {
        push_member(ms, "category", JsonValue::Str(s.clone()));
    }
    proof {
        mdl = mdl + opt_str_member(n.category, "category"@);
        assert(members_model(ms@) =~= mdl);
    }
    if let Some(c) = &n.content_available {
        if *c {
            push_member(ms, "content-available", JsonValue::UInt(1));
        }
    }
    proof {
        mdl = mdl + flag_member(n.content_available, "content-available"@);
        assert(members_model(ms@) =~= mdl);
        assert(mdl =~= members_model(old(ms)@) + front_members(*n));
    }
}

/// Adds the middle third of the block's members to the list.
#[verifier::rlimit(60)]
fn push_mid_members(n: &Notification, ms: &mut Vec<(String, JsonValue)>)
    ensures
        members_model(final(ms)@) == members_model(old(ms)@) + mid_members(*n),
{
    let ghost mut mdl: Seq<(Seq<char>, Seq<char>)> = members_model(ms@);
    if let Some(c) = &n.mutable_content {
        if *c {
            push_member(ms, "mutable-content", JsonValue::UInt(1));
        }
    }
    proof {
        mdl = mdl + flag_member(n.mutable_content, "mutable-content"@);
        assert(members_model(ms@) =~= mdl);
    }
    if let Some(s) = &n.target_content_id {
        push_member(ms, "target-content-id", JsonValue::Str(s.clone()));
    }
    proof {
        mdl = mdl + opt_str_member(n.target_content_id, "target-content-id"@);
        assert(members_model(ms@) =~= mdl);
    }
    if let Some(l) = &n.interruption_level {
        let name = level_str(l);
        push_member(ms, "interruption-level", JsonValue::Str(name.to_owned()));
    }
    proof {
        mdl = mdl + (if n.interruption_level is Some {
            seq![("interruption-level"@, quoted(level_name(n.interruption_level->0)))]
        } else {
            Seq::empty()
        });
        assert(members_model(ms@) =~= mdl);
    }
    if let Some(s) = &n.filter_criteria {
        push_member(ms, "filter-criteria", JsonValue::Str(s.clone()));
    }
    proof {
        mdl = mdl + opt_str_member(n.filter_criteria, "filter-criteria"@);
        assert(members_model(ms@) =~= mdl);
    }
    if let Some(d) = &n.stale_date {
        let dv = *d;
        push_member(ms, "stale-date", JsonValue::UInt(dv));
    }
    proof {
        mdl = mdl + opt_u64_member(n.stale_date, "stale-date"@);
        assert(members_model(ms@) =~= mdl);
    }
    if let Some(cs) = &n.content_state {
        let copy = crate::json::clone_members(cs);
        proof {
            crate::json::lemma_members_printed_equal(copy@, cs@, 0);
            lemma_members_match(copy@, 0);
            assert(members_model(copy@) =~= members_model(cs@));
        }
        push_member(ms, "content-state", JsonValue::Obj(copy));
    }
    proof {
        mdl = mdl + opt_obj_member(n.content_state, "content-state"@);
        assert(members_model(ms@) =~= mdl);
        assert(mdl =~= members_model(old(ms)@) + mid_members(*n));
    }
}

/// Adds the last third of the block's members to the list.
fn push_back_members(n: &Notification, ms: &mut Vec<(String, JsonValue)>)
    ensures
        members_model(final(ms)@) == members_model(old(ms)@) + back_members(*n),
{
    let ghost mut mdl: Seq<(Seq<char>, Seq<char>)> = members_model(ms@);
    if let Some(d) = &n.timestamp {
        let dv = *d;
        push_member(ms, "timestamp", JsonValue::UInt(dv));
    }
    proof {
        mdl = mdl + opt_u64_member(n.timestamp, "timestamp"@);
        assert(members_model(ms@) =~= mdl);
    }
    if let Some(s) = &n.event {
        push_member(ms, "event", JsonValue::Str(s.clone()));
    }
    proof {
        mdl = mdl + opt_str_member(n.event, "event"@);
        assert(members_model(ms@) =~= mdl);
    }
    if let Some(d) = &n.dismissal_date {
        let dv = *d;
        push_member(ms, "dismissal-date", JsonValue::UInt(dv));
    }
    proof {
        mdl = mdl + opt_u64_member(n.dismissal_date, "dismissal-date"@);
        assert(members_model(ms@) =~= mdl);
    }
    if let Some(s) = &n.attributes_type {
        push_member(ms, "attributes-type", JsonValue::Str(s.clone()));
    }
    proof {
        mdl = mdl + opt_str_member(n.attributes_type, "attributes-type"@);
        assert(members_model(ms@) =~= mdl);
    }
    if let Some(at) = &n.attributes {
        let copy = crate::json::clone_members(at);
        proof {
            crate::json::lemma_members_printed_equal(copy@, at@, 0);
            lemma_members_match(copy@, 0);
            assert(members_model(copy@) =~= members_model(at@));
        }
        push_member(ms, "attributes", JsonValue::Obj(copy));
    }
    proof {
        mdl = mdl + opt_obj_member(n.attributes, "attributes"@);
        assert(members_model(ms@) =~= mdl);
        assert(mdl =~= members_model(old(ms)@) + back_members(*n));
    }
}

impl Notification {
    /// The JSON value of the structured block, members in wire order.
    pub fn to_value(&self) -> (v: JsonValue)
        ensures
            printed(v) == notification_text(*self),
    {
        let mut ms: Vec<(String, JsonValue)> = Vec::new();
        push_front_members(self, &mut ms);
        push_mid_members(self, &mut ms);
        push_back_members(self, &mut ms);
        proof {
            assert(members_model(ms@) =~= notification_model(*self));
            lemma_members_match(ms@, 0);
        }
        JsonValue::Obj(ms)
    }

    /// The JSON text of the structured block alone.
    pub fn to_json_string(&self) -> (s: String)
        ensures
            s@ == notification_text(*self),
    {
        let v = self.to_value();
        crate::json::print_value(&v)
    }
}

impl Payload {
    /// The JSON text of the full payload: the block under `aps`, then the
    /// custom members alongside it.
    pub fn to_json_string(&self) -> (s: String)
        ensures
            s@ == payload_text(*self),
    {
        let mut ms: Vec<(String, JsonValue)> = Vec::new();
        let av = self.aps.to_value();
        push_member(&mut ms, "aps", av);
        proof {
            assert(members_model(ms@) =~= seq![("aps"@, notification_text(self.aps))]);
        }
        let ghost head = ms@;
        if let Some(custom) = &self.custom {
            let mut copy = crate::json::clone_members(custom);
            proof {
                crate::json::lemma_members_printed_equal(copy@, custom@, 0);
                assert(members_model(copy@) =~= members_model(custom@));
            }
            let ghost appended = copy@;
            ms.append(&mut copy);
            proof {
                lemma_members_model_add(head, appended);
            }
        }
        proof {
            assert(members_model(ms@) =~= payload_model(*self));
            lemma_members_match(ms@, 0);
        }
        let v = JsonValue::Obj(ms);
        crate::json::print_value(&v)
    }
}

/// The block with every field unset.
pub open spec fn empty_notification() -> Notification {
    Notification {
        alert: None,
        badge: None,
        sound: None,
        thread_id: None,
        category: None,
        content_available: None,
        mutable_content: None,
        target_content_id: None,
        interruption_level: None,
        filter_criteria: None,
        stale_date: None,
        content_state: None,
        timestamp: None,
        event: None,
        dismissal_date: None,
        attributes_type: None,
        attributes: None,
    }
}

impl Default for Notification {
    /// The empty block: every field unset.
    fn default() -> (n: Notification)
        ensures
            n == empty_notification(),
    {
        Notification {
            alert: None,
            badge: None,
            sound: None,
            thread_id: None,
            category: None,
            content_available: None,
            mutable_content: None,
            target_content_id: None,
            interruption_level: None,
            filter_criteria: None,
            stale_date: None,
            content_state: None,
            timestamp: None,
            event: None,
            dismissal_date: None,
            attributes_type: None,
            attributes: None,
        }
    }
}

impl Default for Payload {
    /// An empty block under `aps` and no custom members.
    fn default() -> (p: Payload)
        ensures
            p == (Payload { aps: empty_notification(), custom: None }),
    {
        Payload {
            aps: Notification {
                alert: None,
                badge: None,
                sound: None,
                thread_id: None,
                category: None,
                content_available: None,
                mutable_content: None,
                target_content_id: None,
                interruption_level: None,
                filter_criteria: None,
                stale_date: None,
                content_state: None,
                timestamp: None,
                event: None,
                dismissal_date: None,
                attributes_type: None,
                attributes: None,
            },
            custom: None,
        }
    }
}

impl Notification {
    /// Attaches caller-supplied content state, which must be a JSON object;
    /// any other shape of value is rejected at build time.
    pub fn with_content_state(self, state: JsonValue) -> (r: Result<Notification, BuildError>)
        ensures
            state matches JsonValue::Obj(ms) ==> (r matches Ok(n) && n == (Notification {
                content_state: Some(ms),
                ..self
            })),
            !(state is Obj) ==> (r matches Err(e) && e == (BuildError::ConvertJsonObjectError {
                source: JsonObjectError::NotAnObjectError,
            })),
    {
        match state {
            JsonValue::Obj(ms) => {
                let mut n = self;
                n.content_state = Some(ms);
                Ok(n)
            },
            _ => Err(
                BuildError::ConvertJsonObjectError { source: JsonObjectError::NotAnObjectError },
            ),
        }
    }

    /// Attaches caller-supplied attributes, which must be a JSON object;
    /// any other shape of value is rejected at build time.
    pub fn with_attributes(self, attributes: JsonValue) -> (r: Result<Notification, BuildError>)
        ensures
            attributes matches JsonValue::Obj(ms) ==> (r matches Ok(n) && n == (Notification {
                attributes: Some(ms),
                ..self
            })),
            !(attributes is Obj) ==> (r matches Err(e) && e == (BuildError::ConvertJsonObjectError {
                source: JsonObjectError::NotAnObjectError,
            })),
    {
        match attributes {
            JsonValue::Obj(ms) => {
                let mut n = self;
                n.attributes = Some(ms);
                Ok(n)
            },
            _ => Err(
                BuildError::ConvertJsonObjectError { source: JsonObjectError::NotAnObjectError },
            ),
        }
    }
}

impl Payload {
    /// Attaches caller-supplied top-level members, which must come as a JSON
    /// object; any other shape of value is rejected at build time.
    pub fn with_custom(self, custom: JsonValue) -> (r: Result<Payload, BuildError>)
        ensures
            custom matches JsonValue::Obj(ms) ==> (r matches Ok(p) && p == (Payload {
                custom: Some(ms),
                ..self
            })),
            !(custom is Obj) ==> (r matches Err(e) && e == (BuildError::ConvertJsonObjectError {
                source: JsonObjectError::NotAnObjectError,
            })),
    {
        match custom {
            JsonValue::Obj(ms) => {
                let mut p = self;
                p.custom = Some(ms);
                Ok(p)
            },
            _ => Err(
                BuildError::ConvertJsonObjectError { source: JsonObjectError::NotAnObjectError },
            ),
        }
    }
}

/// Whether some member of `ms` carries the given key.
pub open spec fn has_key(ms: Seq<(Seq<char>, Seq<char>)>, key: Seq<char>) -> bool {
    exists|j: int| 0 <= j < ms.len() && (#[trigger] ms[j]).0 == key
}

/// The first third carries `content-available` only as the integer 1, and
/// only when the flag is set; it never carries `mutable-content`.
proof fn lemma_front_flags(n: Notification)
    ensures
        forall|j: int|
            0 <= j < front_members(n).len() && (#[trigger] front_members(n)[j]).0
                == "content-available"@ ==> n.content_available == Some(true) && front_members(
                n,
            )[j].1 == seq!['1'],
        forall|j: int|
            0 <= j < front_members(n).len() ==> (#[trigger] front_members(n)[j]).0
                != "mutable-content"@,
        n.content_available == Some(true) ==> has_key(front_members(n), "content-available"@),
{
    reveal_strlit("alert");
    reveal_strlit("badge");
    reveal_strlit("sound");
    reveal_strlit("thread-id");
    reveal_strlit("category");
    reveal_strlit("content-available");
    reveal_strlit("mutable-content");
    assert("alert"@.len() == 5);
    assert("badge"@.len() == 5);
    assert("sound"@.len() == 5);
    assert("thread-id"@.len() == 9);
    assert("category"@.len() == 8);
    assert("content-available"@.len() == 17);
    assert("mutable-content"@.len() == 15);
    if n.content_available == Some(true) {
        assert(front_members(n)[front_members(n).len() - 1].0 == "content-available"@);
    }
}

/// The middle third carries `mutable-content` only as the integer 1, and
/// only when the flag is set; it never carries `content-available`.
proof fn lemma_mid_flags(n: Notification)
    ensures
        forall|j: int|
            0 <= j < mid_members(n).len() && (#[trigger] mid_members(n)[j]).0 == "mutable-content"@
                ==> n.mutable_content == Some(true) && mid_members(n)[j].1 == seq!['1'],
        forall|j: int|
            0 <= j < mid_members(n).len() ==> (#[trigger] mid_members(n)[j]).0
                != "content-available"@,
        n.mutable_content == Some(true) ==> has_key(mid_members(n), "mutable-content"@),
{
    reveal_strlit("mutable-content");
    reveal_strlit("target-content-id");
    reveal_strlit("interruption-level");
    reveal_strlit("filter-criteria");
    reveal_strlit("stale-date");
    reveal_strlit("content-state");
    reveal_strlit("content-available");
    assert("mutable-content"@.len() == 15);
    assert("target-content-id"@.len() == 17);
    assert("interruption-level"@.len() == 18);
    assert("filter-criteria"@.len() == 15);
    assert("stale-date"@.len() == 10);
    assert("content-state"@.len() == 13);
    assert("content-available"@.len() == 17);
    assert("mutable-content"@[0] == 'm');
    assert("filter-criteria"@[0] == 'f');
    assert("target-content-id"@[0] == 't');
    assert("content-available"@[0] == 'c');
    if n.mutable_content == Some(true) {
        assert(mid_members(n)[0].0 == "mutable-content"@);
    }
}

/// The last third never carries either boolean flag.
proof fn lemma_back_flags(n: Notification)
    ensures
        forall|j: int|
            0 <= j < back_members(n).len() ==> (#[trigger] back_members(n)[j]).0
                != "content-available"@ && back_members(n)[j].0 != "mutable-content"@,
{
    reveal_strlit("timestamp");
    reveal_strlit("event");
    reveal_strlit("dismissal-date");
    reveal_strlit("attributes-type");
    reveal_strlit("attributes");
    reveal_strlit("content-available");
    reveal_strlit("mutable-content");
    assert("timestamp"@.len() == 9);
    assert("event"@.len() == 5);
    assert("dismissal-date"@.len() == 14);
    assert("attributes-type"@.len() == 15);
    assert("attributes"@.len() == 10);
    assert("content-available"@.len() == 17);
    assert("mutable-content"@.len() == 15);
    assert("attributes-type"@[0] == 'a');
    assert("mutable-content"@[0] == 'm');
}

/// Law: a boolean flag never reaches the wire as JSON `true` or `false`.
/// In the encoded block a flag member carries the integer 1, and it is
/// present exactly when its flag is set to true; a false flag and an unset
/// flag alike leave no member behind.
pub proof fn lemma_flag_encoding(n: Notification)
    ensures
        forall|j: int|
            0 <= j < notification_model(n).len() && ((#[trigger] notification_model(n)[j]).0
                == "content-available"@ || notification_model(n)[j].0 == "mutable-content"@)
                ==> notification_model(n)[j].1 == seq!['1'],
        has_key(notification_model(n), "content-available"@) <==> n.content_available == Some(true),
        has_key(notification_model(n), "mutable-content"@) <==> n.mutable_content == Some(true),
{
    lemma_front_flags(n);
    lemma_mid_flags(n);
    lemma_back_flags(n);
    let model = notification_model(n);
    let f = front_members(n);
    let m = mid_members(n);
    let b = back_members(n);
    assert forall|j: int|
        0 <= j < model.len() && ((#[trigger] model[j]).0 == "content-available"@ || model[j].0
            == "mutable-content"@) implies model[j].1 == seq!['1'] by {
        if j < f.len() {
            assert(model[j] == f[j]);
        } else if j < f.len() + m.len() {
            assert(model[j] == m[j - f.len()]);
        } else {
            assert(model[j] == b[j - f.len() - m.len()]);
        }
    }
    if n.content_available == Some(true) {
        let j = choose|j: int| 0 <= j < f.len() && (#[trigger] f[j]).0 == "content-available"@;
        assert(model[j] == f[j]);
        assert(has_key(model, "content-available"@));
    }
    if has_key(model, "content-available"@) {
        let j = choose|j: int| 0 <= j < model.len() && (#[trigger] model[j]).0
            == "content-available"@;
        if j < f.len() {
            assert(model[j] == f[j]);
        } else if j < f.len() + m.len() {
            assert(model[j] == m[j - f.len()]);
        } else {
            assert(model[j] == b[j - f.len() - m.len()]);
        }
    }
    if n.mutable_content == Some(true) {
        let j = choose|j: int| 0 <= j < m.len() && (#[trigger] m[j]).0 == "mutable-content"@;
        assert(model[f.len() + j] == m[j]);
        assert(has_key(model, "mutable-content"@));
    }
    if has_key(model, "mutable-content"@) {
        let j = choose|j: int| 0 <= j < model.len() && (#[trigger] model[j]).0
            == "mutable-content"@;
        if j < f.len() {
            assert(model[j] == f[j]);
        } else if j < f.len() + m.len() {
            assert(model[j] == m[j - f.len()]);
        } else {
            assert(model[j] == b[j - f.len() - m.len()]);
        }
    }
}

/// Law: the critical flag of a structured sound follows the same rule: the
/// member is present with the integer 1 exactly when the flag is true.
pub proof fn lemma_critical_flag_encoding(critical: Option<bool>, name: Option<String>)
    ensures
        forall|j: int|
            0 <= j < sound_members(critical, name).len() && (#[trigger] sound_members(
                critical,
                name,
            )[j]).0 == "critical"@ ==> critical == Some(true) && sound_members(critical, name)[j].1
                == seq!['1'],
        has_key(sound_members(critical, name), "critical"@) <==> critical == Some(true),
{
    reveal_strlit("critical");
    reveal_strlit("name");
    let ms = sound_members(critical, name);
    let s1 = flag_member(critical, "critical"@);
    let s2 = match name {
        None => Seq::empty(),
        Some(s) => seq![("name"@, quoted(s@))],
    };
    assert(ms == s1 + s2);
    assert("critical"@.len() == 8);
    assert("name"@.len() == 4);
    assert forall|j: int|
        0 <= j < ms.len() && (#[trigger] ms[j]).0 == "critical"@ implies critical == Some(true)
        && ms[j].1 == seq!['1'] by {
        if j < s1.len() {
            assert(ms[j] == s1[j]);
        } else {
            assert(ms[j] == s2[j - s1.len()]);
        }
    }
    if critical == Some(true) {
        assert(ms[0].0 == "critical"@);
    }
}

/// Law: a title's two shapes cannot be confused on the wire: the literal
/// shape carries the key `title`, the localized shape the key
/// `title-loc-key`, and no member list carries both.
pub proof fn lemma_title_shape_unambiguous(t: Option<Title>)
    ensures
        has_key(title_members(t), "title"@) <==> t matches Some(Title::Normal(_)),
        has_key(title_members(t), "title-loc-key"@) <==> t matches Some(Title::Localized { .. }),
        !(has_key(title_members(t), "title"@) && has_key(title_members(t), "title-loc-key"@)),
{
    reveal_strlit("title");
    reveal_strlit("title-loc-key");
    reveal_strlit("title-loc-args");
    assert("title"@.len() == 5);
    assert("title-loc-key"@.len() == 13);
    assert("title-loc-args"@.len() == 14);
    match t {
        None => {},
        Some(Title::Normal(_)) => {
            assert(title_members(t)[0].0 == "title"@);
        },
        Some(Title::Localized { .. }) => {
            assert(title_members(t)[0].0 == "title-loc-key"@);
        },
    }
}

/// Law: a subtitle's two shapes cannot be confused on the wire.
pub proof fn lemma_subtitle_shape_unambiguous(t: Option<Subtitle>)
    ensures
        has_key(subtitle_members(t), "subtitle"@) <==> t matches Some(Subtitle::Normal(_)),
        has_key(subtitle_members(t), "subtitle-loc-key"@) <==> t matches Some(
            Subtitle::Localized { .. },
        ),
        !(has_key(subtitle_members(t), "subtitle"@) && has_key(
            subtitle_members(t),
            "subtitle-loc-key"@,
        )),
{
    reveal_strlit("subtitle");
    reveal_strlit("subtitle-loc-key");
    reveal_strlit("subtitle-loc-args");
    assert("subtitle"@.len() == 8);
    assert("subtitle-loc-key"@.len() == 16);
    assert("subtitle-loc-args"@.len() == 17);
    match t {
        None => {},
        Some(Subtitle::Normal(_)) => {
            assert(subtitle_members(t)[0].0 == "subtitle"@);
        },
        Some(Subtitle::Localized { .. }) => {
            assert(subtitle_members(t)[0].0 == "subtitle-loc-key"@);
        },
    }
}

/// Law: a body's two shapes cannot be confused on the wire.
pub proof fn lemma_body_shape_unambiguous(t: Option<Body>)
    ensures
        has_key(body_members(t), "body"@) <==> t matches Some(Body::Normal(_)),
        has_key(body_members(t), "loc-key"@) <==> t matches Some(Body::Localized { .. }),
        !(has_key(body_members(t), "body"@) && has_key(body_members(t), "loc-key"@)),
{
    reveal_strlit("body");
    reveal_strlit("loc-key");
    reveal_strlit("loc-args");
    assert("body"@.len() == 4);
    assert("loc-key"@.len() == 7);
    assert("loc-args"@.len() == 8);
    match t {
        None => {},
        Some(Body::Normal(_)) => {
            assert(body_members(t)[0].0 == "body"@);
        },
        Some(Body::Localized { .. }) => {
            assert(body_members(t)[0].0 == "loc-key"@);
        },
    }
}

/// Law: inside one structured alert object the three unions stay apart: a
/// shape-telling key is present exactly when its field has that shape, so
/// no member list mixes the literal and localized shapes of a field.
#[verifier::spinoff_prover]
#[verifier::rlimit(100)]
pub proof fn lemma_alert_members_unambiguous(
    title: Option<Title>,
    subtitle: Option<Subtitle>,
    body: Option<Body>,
    launch_image: Option<String>,
)
    ensures
        has_key(alert_full_members(title, subtitle, body, launch_image), "title"@) <==> title
            matches Some(Title::Normal(_)),
        has_key(alert_full_members(title, subtitle, body, launch_image), "title-loc-key"@) <==> title
            matches Some(Title::Localized { .. }),
        has_key(alert_full_members(title, subtitle, body, launch_image), "subtitle"@) <==> subtitle
            matches Some(Subtitle::Normal(_)),
        has_key(alert_full_members(title, subtitle, body, launch_image), "subtitle-loc-key"@)
            <==> subtitle matches Some(Subtitle::Localized { .. }),
        has_key(alert_full_members(title, subtitle, body, launch_image), "body"@) <==> body matches
            Some(Body::Normal(_)),
        has_key(alert_full_members(title, subtitle, body, launch_image), "loc-key"@) <==> body
            matches Some(Body::Localized { .. }),
{
    reveal_strlit("title");
    reveal_strlit("title-loc-key");
    reveal_strlit("title-loc-args");
    reveal_strlit("subtitle");
    reveal_strlit("subtitle-loc-key");
    reveal_strlit("subtitle-loc-args");
    reveal_strlit("body");
    reveal_strlit("loc-key");
    reveal_strlit("loc-args");
    reveal_strlit("launch-image");
    assert("title"@.len() == 5);
    assert("title-loc-key"@.len() == 13);
    assert("title-loc-args"@.len() == 14);
    assert("subtitle"@.len() == 8);
    assert("subtitle-loc-key"@.len() == 16);
    assert("subtitle-loc-args"@.len() == 17);
    assert("body"@.len() == 4);
    assert("loc-key"@.len() == 7);
    assert("loc-args"@.len() == 8);
    assert("launch-image"@.len() == 12);
    assert("subtitle"@[0] == 's');
    assert("loc-args"@[0] == 'l');
    let t = title_members(title);
    let st = subtitle_members(subtitle);
    let b = body_members(body);
    let li = (match launch_image {
        None => Seq::<(Seq<char>, Seq<char>)>::empty(),
        Some(img) => seq![("launch-image"@, quoted(img@))],
    });
    let ms = alert_full_members(title, subtitle, body, launch_image);
    assert(ms == t + st + b + li);
    assert forall|j: int| 0 <= j < ms.len() implies #[trigger] ms[j] == (if j < t.len() {
        t[j]
    } else if j < t.len() + st.len() {
        st[j - t.len()]
    } else if j < t.len() + st.len() + b.len() {
        b[j - t.len() - st.len()]
    } else {
        li[j - t.len() - st.len() - b.len()]
    }) by {
    }
    if title matches Some(Title::Normal(_)) {
        assert(ms[0] == t[0]);
    }
    if title matches Some(Title::Localized { .. }) {
        assert(ms[0] == t[0]);
    }
    if subtitle matches Some(Subtitle::Normal(_)) {
        assert(ms[t.len() as int] == st[0]);
    }
    if subtitle matches Some(Subtitle::Localized { .. }) {
        assert(ms[t.len() as int] == st[0]);
    }
    if body matches Some(Body::Normal(_)) {
        assert(ms[t.len() as int + st.len() as int] == b[0]);
    }
    if body matches Some(Body::Localized { .. }) {
        assert(ms[t.len() as int + st.len() as int] == b[0]);
    }
}

/// Law: a bare alert and a structured alert cannot be confused: the first
/// prints as a JSON string, the second as a JSON object.
pub proof fn lemma_alert_shape_unambiguous(a: Alert)
    ensures
        alert_text(a).len() > 0,
        alert_text(a)[0] == '"' <==> a matches Alert::Body(_),
        alert_text(a)[0] == '{' <==> a matches Alert::Full { .. },
{
    match a {
        Alert::Body(s) => {
            assert(alert_text(a)[0] == '"');
        },
        Alert::Full { .. } => {
            assert(alert_text(a)[0] == '{');
        },
    }
}

/// Law: a bare sound and a structured sound cannot be confused: the first
/// prints as a JSON string, the second as a JSON object.
pub proof fn lemma_sound_shape_unambiguous(s: Sound)
    ensures
        sound_text(s).len() > 0,
        sound_text(s)[0] == '"' <==> s matches Sound::Regular(_),
        sound_text(s)[0] == '{' <==> s matches Sound::Critical { .. },
{
    match s {
        Sound::Regular(_) => {
            assert(sound_text(s)[0] == '"');
        },
        Sound::Critical { .. } => {
            assert(sound_text(s)[0] == '{');
        },
    }
}

} // verus!
