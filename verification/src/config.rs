//! The settings of the program that the library reads: the printer's
//! address and pincode, the notification destinations and what each one is
//! told about, the server's address and the log level.

use vstd::prelude::*;

use crate::discovery::random_u32;
use crate::error::{AppError, ConfigError};
use crate::json::{Json, JsonNumber, JsonView, NumberView, field_view, jv};
use crate::text::{chars_of, hex8, hex8_view, push_str, str_eq};

verus! {

#[derive(Debug, Clone)]
pub struct PrinterConfig {
    pub ip: String,
    pub printer_id: String,
    pub pincode: String,
}

/// The password the printer expects when none was configured.
pub open spec fn default_password() -> Seq<char> {
    "123456"@
}

impl PrinterConfig {
    /// No address, no id and no pincode: the printer is not set up yet.
    pub fn empty() -> (c: PrinterConfig)
        ensures
            c.ip@.len() == 0,
            c.printer_id@.len() == 0,
            c.pincode@.len() == 0,
    {
        PrinterConfig { ip: String::new(), printer_id: String::new(), pincode: String::new() }
    }

    /// The password for the printer's brokers: the pincode when one is set,
    /// else the printer's default.
    pub fn printer_password(&self) -> (p: &str)
        ensures
            p@ == if self.pincode@.len() > 0 {
                self.pincode@
            } else {
                default_password()
            },
    {
        if !self.pincode.as_str().is_empty() {
            self.pincode.as_str()
        } else {
            "123456"
        }
    }
}

/// Whether a character is an ASCII letter or digit.
pub open spec fn ascii_alnum(c: char) -> bool {
    ('0' <= c <= '9') || ('a' <= c <= 'z') || ('A' <= c <= 'Z')
}

/// Whether a pincode is six ASCII letters or digits.
pub open spec fn valid_pincode(p: Seq<char>) -> bool {
    p.len() == 6 && forall|i: int| 0 <= i < 6 ==> ascii_alnum(#[trigger] p[i])
}

/// Checks that a pincode is six ASCII letters or digits.
pub fn validate_pincode(p: &str) -> (r: Result<(), ConfigError>)
    ensures
        valid_pincode(p@) ==> r is Ok,
        !valid_pincode(p@) ==> r matches Err(ConfigError::InvalidPincode),
{
    let chars = chars_of(p);
    if chars.len() != 6 {
        return Err(ConfigError::InvalidPincode);
    }
    let mut i: usize = 0;
    while i < 6
        invariant
            chars@ == p@,
            chars@.len() == 6,
            i <= 6,
            forall|j: int| 0 <= j < i ==> ascii_alnum(#[trigger] chars@[j]),
        decreases 6 - i,
    {
        let c = chars[i];
        if !(('0' <= c && c <= '9') || ('a' <= c && c <= 'z') || ('A' <= c && c <= 'Z')) {
            return Err(ConfigError::InvalidPincode);
        }
        i += 1;
    }
    Ok(())
}

/// Where notifications go.
#[derive(Debug, Clone, Copy, PartialEq, Eq, Structural)]
pub enum DestinationKind {
    Ntfy,
    Discord,
    Webhook,
}

impl DestinationKind {
    /// The stored name of the kind.
    pub fn as_str(&self) -> (s: &'static str)
        ensures
            s@ == kind_name(*self),
    {
        match self {
            DestinationKind::Ntfy => "ntfy",
            DestinationKind::Discord => "discord",
            DestinationKind::Webhook => "webhook",
        }
    }

    /// The kind with a stored name, if the name is one.
    pub fn from_name(name: &str) -> (k: Option<DestinationKind>)
        ensures
            k == if name@ == "ntfy"@ {
                Some(DestinationKind::Ntfy)
            } else if name@ == "discord"@ {
                Some(DestinationKind::Discord)
            } else if name@ == "webhook"@ {
                Some(DestinationKind::Webhook)
            } else {
                None::<DestinationKind>
            },
    {
        if crate::text::str_eq(name, "ntfy") {
            Some(DestinationKind::Ntfy)
        } else if crate::text::str_eq(name, "discord") {
            Some(DestinationKind::Discord)
        } else if crate::text::str_eq(name, "webhook") {
            Some(DestinationKind::Webhook)
        } else {
            None
        }
    }
}

pub open spec fn kind_name(k: DestinationKind) -> Seq<char> {
    match k {
        DestinationKind::Ntfy => "ntfy"@,
        DestinationKind::Discord => "discord"@,
        DestinationKind::Webhook => "webhook"@,
    }
}

/// Which events a destination is told about.
#[derive(Debug, Clone, Copy, PartialEq, Eq, Structural)]
pub struct EventToggles {
    pub print_started: bool,
    pub print_finished: bool,
    pub print_paused: bool,
    pub failure_notify: bool,
    pub failure_pause: bool,
    pub auto_paused: bool,
    pub camera_lost: bool,
    pub camera_restored: bool,
    pub emergency_stop: bool,
    pub machine_error: bool,
    pub id_not_match: bool,
    pub auth_error: bool,
    pub print_resumed: bool,
    pub print_stopped: bool,
    pub print_finished_ok: bool,
    pub connected: bool,
    pub disconnected: bool,
    pub detection_engine_error: bool,
}

/// The value of a toggle that the stored settings leave out: on.
pub fn default_true() -> (b: bool)
    ensures
        b,
{
    true
}

/// Every toggle on.
pub open spec fn all_on(t: EventToggles) -> bool {
    &&& t.print_started
    &&& t.print_finished
    &&& t.print_paused
    &&& t.failure_notify
    &&& t.failure_pause
    &&& t.auto_paused
    &&& t.camera_lost
    &&& t.camera_restored
    &&& t.emergency_stop
    &&& t.machine_error
    &&& t.id_not_match
    &&& t.auth_error
    &&& t.print_resumed
    &&& t.print_stopped
    &&& t.print_finished_ok
    &&& t.connected
    &&& t.disconnected
    &&& t.detection_engine_error
}

impl Default for EventToggles {
    /// A destination is told about everything until told otherwise.
    fn default() -> (t: EventToggles)
        ensures
            all_on(t),
    {
        EventToggles {
            print_started: true,
            print_finished: true,
            print_paused: true,
            failure_notify: true,
            failure_pause: true,
            auto_paused: true,
            camera_lost: true,
            camera_restored: true,
            emergency_stop: true,
            machine_error: true,
            id_not_match: true,
            auth_error: true,
            print_resumed: true,
            print_stopped: true,
            print_finished_ok: true,
            connected: true,
            disconnected: true,
            detection_engine_error: true,
        }
    }
}

/// A place notifications go to, and which of them.
#[derive(Debug, Clone)]
pub struct NotificationDestination {
    pub id: String,
    pub kind: DestinationKind,
    pub enabled: bool,
    pub label: String,
    pub ntfy_server: Option<String>,
    pub ntfy_topic: Option<String>,
    /// The address opened when the notification is tapped.
    pub ntfy_tap_url: Option<String>,
    pub discord_webhook_url: Option<String>,
    pub webhook_url: Option<String>,
    pub toggles: EventToggles,
}

fn copy_text(o: &Option<String>) -> (r: Option<String>)
    ensures
        r == *o,
{
    match o {
        Some(s) => Some(s.clone()),
        None => None,
    }
}

impl NotificationDestination {
    /// A copy of the destination.
    pub fn duplicate(&self) -> (r: NotificationDestination)
        ensures
            r == *self,
    {
        NotificationDestination {
            id: self.id.clone(),
            kind: self.kind,
            enabled: self.enabled,
            label: self.label.clone(),
            ntfy_server: copy_text(&self.ntfy_server),
            ntfy_topic: copy_text(&self.ntfy_topic),
            ntfy_tap_url: copy_text(&self.ntfy_tap_url),
            discord_webhook_url: copy_text(&self.discord_webhook_url),
            webhook_url: copy_text(&self.webhook_url),
            toggles: self.toggles,
        }
    }
}

#[derive(Debug, Clone)]
pub struct NotificationsConfig {
    pub destinations: Vec<NotificationDestination>,
}

impl NotificationsConfig {
    pub fn empty() -> (c: NotificationsConfig)
        ensures
            c.destinations@.len() == 0,
    {
        NotificationsConfig { destinations: Vec::new() }
    }
}

#[derive(Debug, Clone)]
pub struct ServerConfig {
    pub host: String,
    pub port: u16,
}

impl ServerConfig {
    /// Every interface, port 8484.
    pub fn default_server() -> (c: ServerConfig)
        ensures
            c.host@ == "0.0.0.0"@,
            c.port == 8484,
    {
        ServerConfig { host: "0.0.0.0".to_owned(), port: 8484 }
    }
}

#[derive(Debug, Clone)]
pub struct LoggingConfig {
    pub level: String,
}

impl LoggingConfig {
    /// The `info` level.
    pub fn default_logging() -> (c: LoggingConfig)
        ensures
            c.level@ == "info"@,
    {
        LoggingConfig { level: "info".to_owned() }
    }
}

// ---------------------------------------------------------------------------
// Settings changes

/// The least interval between two detections, in seconds.
pub const MIN_INTERVAL_SECS: u32 = 5;

/// The settings a change request sets; what it leaves out stays.
#[derive(Debug, Clone)]
pub struct SettingsPatch {
    pub printer_ip: Option<String>,
    pub printer_pincode: Option<String>,
    pub detection_enabled: Option<bool>,
    /// Already raised to the least interval.
    pub detection_interval_secs: Option<u32>,
    pub obico_url: Option<String>,
    pub server_host: Option<String>,
    /// The low 16 bits of the requested port.
    pub server_port: Option<u16>,
    pub log_level: Option<String>,
}

/// The text at `section.key` of a request, if it is a text.
pub open spec fn text_at(req: JsonView, section: Seq<char>, key: Seq<char>) -> Option<Seq<char>> {
    match field_view(req, section) {
        Some(sec) => match field_view(sec, key) {
            Some(JsonView::Text(t)) => Some(t),
            _ => None,
        },
        None => None,
    }
}

/// The unsigned integer at `section.key` of a request, if it is one.
pub open spec fn uint_at(req: JsonView, section: Seq<char>, key: Seq<char>) -> Option<u64> {
    match field_view(req, section) {
        Some(sec) => match field_view(sec, key) {
            Some(JsonView::Number(NumberView::PosInt(n))) => Some(n),
            _ => None,
        },
        None => None,
    }
}

/// The boolean at `section.key` of a request, if it is one.
pub open spec fn bool_at(req: JsonView, section: Seq<char>, key: Seq<char>) -> Option<bool> {
    match field_view(req, section) {
        Some(sec) => match field_view(sec, key) {
            Some(JsonView::Bool(b)) => Some(b),
            _ => None,
        },
        None => None,
    }
}

pub open spec fn opt_seq(o: Option<String>) -> Option<Seq<char>> {
    match o {
        Some(s) => Some(s@),
        None => None,
    }
}

fn text_field(req: &Json, section: &str, key: &str) -> (r: Option<String>)
    ensures
        opt_seq(r) == text_at(jv(*req), section@, key@),
{
    match req.get(section) {
        Some(sec) => match sec.get(key) {
            Some(Json::Text(t)) => Some(t.clone()),
            _ => None,
        },
        None => None,
    }
}

fn uint_field(req: &Json, section: &str, key: &str) -> (r: Option<u64>)
    ensures
        r == uint_at(jv(*req), section@, key@),
{
    match req.get(section) {
        Some(sec) => match sec.get(key) {
            Some(Json::Number(JsonNumber::PosInt(n))) => Some(*n),
            _ => None,
        },
        None => None,
    }
}

fn bool_field(req: &Json, section: &str, key: &str) -> (r: Option<bool>)
    ensures
        r == bool_at(jv(*req), section@, key@),
{
    match req.get(section) {
        Some(sec) => match sec.get(key) {
            Some(Json::Bool(b)) => Some(*b),
            _ => None,
        },
        None => None,
    }
}

/// An interval raised to the least interval.
pub fn detection_interval(v: u32) -> (r: u32)
    ensures
        r == if v < MIN_INTERVAL_SECS {
            MIN_INTERVAL_SECS
        } else {
            v
        },
{
    if v < MIN_INTERVAL_SECS {
        MIN_INTERVAL_SECS
    } else {
        v
    }
}

/// Reads the settings that a change request sets, apart from the detection
/// thresholds: `printer.ip`, `printer.pincode`, `detection.enabled`,
/// `detection.interval_secs` (cut to 32 bits, then at least five),
/// `detection.obico_url`, `server.host`, `server.port` (cut to 16 bits) and
/// `logging.level`, each when present with the right type.
pub fn settings_patch(req: &Json) -> (p: SettingsPatch)
    ensures
        opt_seq(p.printer_ip) == text_at(jv(*req), "printer"@, "ip"@),
        opt_seq(p.printer_pincode) == text_at(jv(*req), "printer"@, "pincode"@),
        p.detection_enabled == bool_at(jv(*req), "detection"@, "enabled"@),
        p.detection_interval_secs == match uint_at(jv(*req), "detection"@, "interval_secs"@) {
            Some(v) => Some(
                if ((v % 4294967296) as u32) < MIN_INTERVAL_SECS {
                    MIN_INTERVAL_SECS
                } else {
                    (v % 4294967296) as u32
                },
            ),
            None => None,
        },
        opt_seq(p.obico_url) == text_at(jv(*req), "detection"@, "obico_url"@),
        opt_seq(p.server_host) == text_at(jv(*req), "server"@, "host"@),
        p.server_port == match uint_at(jv(*req), "server"@, "port"@) {
            Some(v) => Some((v % 65536) as u16),
            None => None,
        },
        opt_seq(p.log_level) == text_at(jv(*req), "logging"@, "level"@),
{
    let interval = match uint_field(req, "detection", "interval_secs") {
        Some(v) => Some(detection_interval((v % 4294967296) as u32)),
        None => None,
    };
    let port = match uint_field(req, "server", "port") {
        Some(v) => Some((v % 65536) as u16),
        None => None,
    };
    SettingsPatch {
        printer_ip: text_field(req, "printer", "ip"),
        printer_pincode: text_field(req, "printer", "pincode"),
        detection_enabled: bool_field(req, "detection", "enabled"),
        detection_interval_secs: interval,
        obico_url: text_field(req, "detection", "obico_url"),
        server_host: text_field(req, "server", "host"),
        server_port: port,
        log_level: text_field(req, "logging", "level"),
    }
}

/// Sets the printer, server and logging settings that a change names.
pub fn apply_settings(
    patch: &SettingsPatch,
    printer: &mut PrinterConfig,
    server: &mut ServerConfig,
    logging: &mut LoggingConfig,
)
    ensures
        final(printer).ip@ == match opt_seq(patch.printer_ip) {
            Some(v) => v,
            None => old(printer).ip@,
        },
        final(printer).pincode@ == match opt_seq(patch.printer_pincode) {
            Some(v) => v,
            None => old(printer).pincode@,
        },
        final(printer).printer_id == old(printer).printer_id,
        final(server).host@ == match opt_seq(patch.server_host) {
            Some(v) => v,
            None => old(server).host@,
        },
        final(server).port == match patch.server_port {
            Some(v) => v,
            None => old(server).port,
        },
        final(logging).level@ == match opt_seq(patch.log_level) {
            Some(v) => v,
            None => old(logging).level@,
        },
{
    if let Some(v) = &patch.printer_ip {
        printer.ip = v.clone();
    }
    if let Some(v) = &patch.printer_pincode {
        printer.pincode = v.clone();
    }
    if let Some(v) = &patch.server_host {
        server.host = v.clone();
    }
    if let Some(v) = patch.server_port {
        server.port = v;
    }
    if let Some(v) = &patch.log_level {
        logging.level = v.clone();
    }
}

// ---------------------------------------------------------------------------
// Notification destinations

/// A change to a destination; what it leaves out stays.
#[derive(Debug, Clone)]
pub struct UpdateDestinationReq {
    pub enabled: Option<bool>,
    pub label: Option<String>,
    pub ntfy_server: Option<String>,
    pub ntfy_topic: Option<String>,
    pub discord_webhook_url: Option<String>,
    pub webhook_url: Option<String>,
    pub toggles: Option<EventToggles>,
}

/// The ids of a list of destinations.
pub open spec fn ids(d: Seq<NotificationDestination>) -> Seq<Seq<char>> {
    d.map_values(|x: NotificationDestination| x.id@)
}

/// A new destination id: eight random hexadecimal digits.
pub fn gen_id() -> (id: String)
    ensures
        exists|n: u32| id@ == hex8_view(n),
{
    let n = random_u32();
    hex8(n)
}

fn not_found(id: &str, quoted: bool) -> (e: AppError)
    ensures
        e matches AppError::Validation(m) && m@ == if quoted {
            "destination '"@ + id@ + "' not found"@
        } else {
            "destination "@ + id@ + " not found"@
        },
{
    let mut m = "destination ".to_owned();
    if quoted {
        push_str(&mut m, "'");
        push_str(&mut m, id);
        push_str(&mut m, "' not found");
        assert(m@ =~= "destination '"@ + id@ + "' not found"@) by {
            reveal_strlit("destination ");
            reveal_strlit("destination '");
            reveal_strlit("'");
        }
    } else {
        push_str(&mut m, id);
        push_str(&mut m, " not found");
    }
    AppError::Validation(m)
}

impl NotificationsConfig {
    /// The position of the first destination with an id.
    pub fn position(&self, id: &str) -> (r: Option<usize>)
        ensures
            match r {
                Some(p) => p < self.destinations@.len() && self.destinations@[p as int].id@ == id@
                    && forall|q: int| 0 <= q < p ==> self.destinations@[q].id@ != id@,
                None => forall|q: int|
                    0 <= q < self.destinations@.len() ==> self.destinations@[q].id@ != id@,
            },
    {
        let mut i: usize = 0;
        while i < self.destinations.len()
            invariant
                i <= self.destinations@.len(),
                forall|q: int| 0 <= q < i ==> self.destinations@[q].id@ != id@,
            decreases self.destinations@.len() - i,
        {
            if str_eq(self.destinations[i].id.as_str(), id) {
                return Some(i);
            }
            i += 1;
        }
        None
    }

    /// Adds a destination under a new id, at the end; the result is the id.
    pub fn add(&mut self, dest: NotificationDestination) -> (id: String)
        ensures
            final(self).destinations@.len() == old(self).destinations@.len() + 1,
            final(self).destinations@.drop_last() == old(self).destinations@,
            final(self).destinations@.last().id@ == id@,
            final(self).destinations@.last().kind == dest.kind,
            final(self).destinations@.last().label == dest.label,
            final(self).destinations@.last().toggles == dest.toggles,
    {
        let id = gen_id();
        let mut d = dest;
        d.id = id.clone();
        self.destinations.push(d);
        assert(self.destinations@.drop_last() =~= old(self).destinations@);
        id
    }

    /// Changes the first destination with an id as the change says; an
    /// error when no destination has the id.
    pub fn update(&mut self, id: &str, req: &UpdateDestinationReq) -> (r: Result<(), AppError>)
        ensures
            (forall|q: int|
                0 <= q < old(self).destinations@.len() ==> old(self).destinations@[q].id@ != id@)
                ==> (r matches Err(AppError::Validation(m)) && m@ == "destination '"@ + id@
                + "' not found"@) && final(self).destinations@ == old(self).destinations@,
            r is Ok ==> exists|p: int|
                0 <= p < old(self).destinations@.len() && old(self).destinations@[p].id@ == id@
                    && (forall|q: int| 0 <= q < p ==> old(self).destinations@[q].id@ != id@)
                    && final(self).destinations@ == old(self).destinations@.update(
                    p,
                    patched(old(self).destinations@[p], *req),
                ),
            r is Ok || (forall|q: int|
                0 <= q < old(self).destinations@.len() ==> old(self).destinations@[q].id@ != id@),
    {
        match self.position(id) {
            None => Err(not_found(id, true)),
            Some(p) => {
                let d = apply_change(&self.destinations[p], req);
                let ghost old_d = self.destinations@;
                self.destinations.set(p, d);
                assert(old_d[p as int].id@ == id@);
                assert(self.destinations@ == old_d.update(p as int, patched(old_d[p as int], *req)));
                Ok(())
            },
        }
    }

    /// Removes every destination with an id; an error when none has it.
    pub fn remove(&mut self, id: &str) -> (r: Result<(), AppError>)
        ensures
            final(self).destinations@ == old(self).destinations@.filter(
                |d: NotificationDestination| d.id@ != id@,
            ),
            (exists|q: int|
                0 <= q < old(self).destinations@.len() && old(self).destinations@[q].id@ == id@)
                ==> r is Ok,
            !(exists|q: int|
                0 <= q < old(self).destinations@.len() && old(self).destinations@[q].id@ == id@)
                ==> (r matches Err(AppError::Validation(m)) && m@ == "destination "@ + id@
                + " not found"@),
    {
        let ghost orig = self.destinations@;
        proof {
            reveal(Seq::filter);
            assert(orig.take(0) =~= Seq::<NotificationDestination>::empty());
        }
        let mut kept: Vec<NotificationDestination> = Vec::new();
        let mut found = false;
        let mut i: usize = 0;
        while i < self.destinations.len()
            invariant
                orig == self.destinations@,
                i <= orig.len(),
                kept@ == orig.take(i as int).filter(|d: NotificationDestination| d.id@ != id@),
                found == exists|q: int| 0 <= q < i && orig[q].id@ == id@,
            decreases orig.len() - i,
        {
            let d = &self.destinations[i];
            proof {
                assert(orig.take(i + 1).drop_last() =~= orig.take(i as int));
                assert(orig.take(i + 1).last() == orig[i as int]);
                reveal(Seq::filter);
            }
            if str_eq(d.id.as_str(), id) {
                found = true;
            } else {
                kept.push(d.duplicate());
            }
            i += 1;
        }
        assert(orig.take(orig.len() as int) =~= orig);
        proof {
            reveal(Seq::filter);
            assert(orig.take(0) =~= Seq::<NotificationDestination>::empty());
        }
        self.destinations = kept;
        if !found {
            return Err(not_found(id, false));
        }
        Ok(())
    }

    /// The first destination with an id; an error when none has it.
    pub fn find(&self, id: &str) -> (r: Result<&NotificationDestination, AppError>)
        ensures
            match r {
                Ok(d) => exists|p: int|
                    0 <= p < self.destinations@.len() && self.destinations@[p] == *d && d.id@
                        == id@,
                Err(e) => (e matches AppError::Validation(m) && m@ == "destination "@ + id@
                    + " not found"@) && forall|q: int|
                    0 <= q < self.destinations@.len() ==> self.destinations@[q].id@ != id@,
            },
    {
        match self.position(id) {
            Some(p) => Ok(&self.destinations[p]),
            None => Err(not_found(id, false)),
        }
    }
}

fn pick_text(new: &Option<String>, old: &String) -> (r: String)
    ensures
        r == match *new {
            Some(v) => v,
            None => *old,
        },
{
    match new {
        Some(v) => v.clone(),
        None => old.clone(),
    }
}

fn pick_opt(new: &Option<String>, old: &Option<String>) -> (r: Option<String>)
    ensures
        r == match *new {
            Some(v) => Some(v),
            None => *old,
        },
{
    match new {
        Some(v) => Some(v.clone()),
        None => copy_text(old),
    }
}

fn apply_change(d: &NotificationDestination, req: &UpdateDestinationReq) -> (r: NotificationDestination)
    ensures
        r == patched(*d, *req),
{
    let enabled = match req.enabled {
        Some(v) => v,
        None => d.enabled,
    };
    let toggles = match req.toggles {
        Some(v) => v,
        None => d.toggles,
    };
    let label = pick_text(&req.label, &d.label);
    let ntfy_server = pick_opt(&req.ntfy_server, &d.ntfy_server);
    let ntfy_topic = pick_opt(&req.ntfy_topic, &d.ntfy_topic);
    let discord_webhook_url = pick_opt(&req.discord_webhook_url, &d.discord_webhook_url);
    let webhook_url = pick_opt(&req.webhook_url, &d.webhook_url);
    NotificationDestination {
        id: d.id.clone(),
        kind: d.kind,
        enabled,
        label,
        ntfy_server,
        ntfy_topic,
        ntfy_tap_url: copy_text(&d.ntfy_tap_url),
        discord_webhook_url,
        webhook_url,
        toggles,
    }
}

/// A destination after a change.
pub open spec fn patched(d: NotificationDestination, req: UpdateDestinationReq) -> NotificationDestination {
    NotificationDestination {
        enabled: match req.enabled {
            Some(v) => v,
            None => d.enabled,
        },
        label: match req.label {
            Some(v) => v,
            None => d.label,
        },
        ntfy_server: match req.ntfy_server {
            Some(v) => Some(v),
            None => d.ntfy_server,
        },
        ntfy_topic: match req.ntfy_topic {
            Some(v) => Some(v),
            None => d.ntfy_topic,
        },
        discord_webhook_url: match req.discord_webhook_url {
            Some(v) => Some(v),
            None => d.discord_webhook_url,
        },
        webhook_url: match req.webhook_url {
            Some(v) => Some(v),
            None => d.webhook_url,
        },
        toggles: match req.toggles {
            Some(v) => v,
            None => d.toggles,
        },
        ..d
    }
}

} // verus!
