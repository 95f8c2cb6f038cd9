//! The control-plane protocol: requests, responses, their wire form, and
//! the stateless command handler over the shared configuration store.
//!
//! A request is one JSON object `{"id":N,"data":{"type":...}}`; the
//! response mirrors the id. `UpdateConfig` replaces the live configuration
//! without touching the disk; `SaveConfig` persists only when forced or
//! when the live configuration differs from what was last persisted, and
//! the write itself is carried out by the caller between `handle_command`
//! and `finish_save`.
use vstd::prelude::*;

use crate::codec::{p_bool, p_tok, ser_bool, sp_bool, sp_tok};
use crate::config::{config_ok, Config, ConfigView};
use crate::config_codec::{
    lemma_sp_config_valid, p_config, ser_area, ser_config, serialize_config, sp_config,
};
use crate::device::{device_ok, Device, DeviceView};
use crate::handler::TabletStatus;
use crate::json::{
    lit, p_int, push_int, push_lit, push_nat, ser_int, ser_nat, skip_ws, sp_int, sp_ws,
};
use crate::store::{config_file_ok, SharedData};

verus! {

/// A request from a control-plane client.
pub struct ReqCommand {
    pub id: i32,
    pub data: ReqCommands,
}

/// The commands a client can send.
pub enum ReqCommands {
    GetConfig,
    GetStatus,
    GetDevice,
    UpdateConfig { config: Config },
    SaveConfig { force_write: bool },
    Stop,
}

/// A response to a control-plane client.
pub struct ResCommand {
    pub id: i32,
    pub data: ResCommands,
}

/// The responses the handler produces.
pub enum ResCommands {
    GetConfig { config: Config },
    GetStatus { status: TabletStatus },
    GetDevice { device: Device },
    UpdateConfig { updated: bool },
    SaveConfig { saved: bool, file_changed: bool },
    Stop { stopping: bool },
}

/// The mathematical value of a request body.
#[verifier::ext_equal]
pub enum ReqCommandsView {
    GetConfig,
    GetStatus,
    GetDevice,
    UpdateConfig { config: ConfigView },
    SaveConfig { force_write: bool },
    Stop,
}

impl View for ReqCommands {
    type V = ReqCommandsView;

    open spec fn view(&self) -> ReqCommandsView {
        match self {
            ReqCommands::GetConfig => ReqCommandsView::GetConfig,
            ReqCommands::GetStatus => ReqCommandsView::GetStatus,
            ReqCommands::GetDevice => ReqCommandsView::GetDevice,
            ReqCommands::UpdateConfig { config } => ReqCommandsView::UpdateConfig {
                config: config@,
            },
            ReqCommands::SaveConfig { force_write } => ReqCommandsView::SaveConfig {
                force_write: *force_write,
            },
            ReqCommands::Stop => ReqCommandsView::Stop,
        }
    }
}

/// The mathematical value of a response body.
#[verifier::ext_equal]
pub enum ResCommandsView {
    GetConfig { config: ConfigView },
    GetStatus { status: TabletStatus },
    GetDevice { device: DeviceView },
    UpdateConfig { updated: bool },
    SaveConfig { saved: bool, file_changed: bool },
    Stop { stopping: bool },
}

impl View for ResCommands {
    type V = ResCommandsView;

    open spec fn view(&self) -> ResCommandsView {
        match self {
            ResCommands::GetConfig { config } => ResCommandsView::GetConfig { config: config@ },
            ResCommands::GetStatus { status } => ResCommandsView::GetStatus { status: *status },
            ResCommands::GetDevice { device } => ResCommandsView::GetDevice { device: device@ },
            ResCommands::UpdateConfig { updated } => ResCommandsView::UpdateConfig {
                updated: *updated,
            },
            ResCommands::SaveConfig { saved, file_changed } => ResCommandsView::SaveConfig {
                saved: *saved,
                file_changed: *file_changed,
            },
            ResCommands::Stop { stopping } => ResCommandsView::Stop { stopping: *stopping },
        }
    }
}


/// The mathematical value of a request.
#[verifier::ext_equal]
pub struct ReqCommandView {
    pub id: int,
    pub data: ReqCommandsView,
}

impl View for ReqCommand {
    type V = ReqCommandView;

    open spec fn view(&self) -> ReqCommandView {
        ReqCommandView { id: self.id as int, data: self.data@ }
    }
}

/// The mathematical value of a response.
#[verifier::ext_equal]
pub struct ResCommandView {
    pub id: int,
    pub data: ResCommandsView,
}

impl View for ResCommand {
    type V = ResCommandView;

    open spec fn view(&self) -> ResCommandView {
        ResCommandView { id: self.id as int, data: self.data@ }
    }
}

/// What handling one command asks of the caller.
pub enum CommandOutcome {
    /// The command is complete; send the response.
    Done { response: ResCommand },
    /// Write `content` to the configuration file, then call `finish_save`.
    Save { id: i32, content: Vec<u8> },
    /// Send the response, then stop the session.
    Stop { response: ResCommand },
}

/// The live configuration after a command is handled.
pub open spec fn command_next_config(cur: ConfigView, data: ReqCommandsView) -> ConfigView {
    match data {
        ReqCommandsView::UpdateConfig { config } => config,
        _ => cur,
    }
}

/// The configuration a `GetConfig` on state `cur` reports.
pub open spec fn get_config_result(cur: ConfigView) -> ConfigView {
    cur
}

/// Whether a save request writes the file: forced, or the live
/// configuration differs from what was last persisted.
pub open spec fn save_writes(cur: ConfigView, persisted: Option<ConfigView>, force: bool) -> bool {
    force || persisted != Some(cur)
}

/// `UpdateConfig` followed immediately by `GetConfig` returns the
/// just-submitted configuration, with no disk round trip in between.
pub proof fn lemma_update_then_get(cur: ConfigView, c: ConfigView)
    ensures
        get_config_result(
            command_next_config(cur, ReqCommandsView::UpdateConfig { config: c }),
        ) == c,
{
}

/// An unforced save when the live configuration equals the last persisted
/// one writes nothing.
pub proof fn lemma_save_unchanged_skips(cur: ConfigView, persisted: Option<ConfigView>)
    requires
        persisted == Some(cur),
    ensures
        !save_writes(cur, persisted, false),
{
}

/// An unforced save after the configuration was replaced with a different
/// value writes the file.
pub proof fn lemma_save_after_update_writes(cur: ConfigView, persisted: Option<ConfigView>)
    requires
        persisted != Some(cur),
    ensures
        save_writes(cur, persisted, false),
{
}

/// Handle one decoded request against the shared data and the current
/// connection status. Every command observes and changes one consistent
/// snapshot; only `SaveConfig` defers to the caller for the file write.
pub fn handle_command(shared: &mut SharedData, status: TabletStatus, req: ReqCommand) -> (r:
    CommandOutcome)
    requires
        config_file_ok(old(shared).spec_config_file()),
        device_ok(old(shared).spec_device()),
        req.data@ matches ReqCommandsView::UpdateConfig { config } ==> config_ok(config),
    ensures
        config_file_ok(final(shared).spec_config_file()),
        final(shared).spec_device() == old(shared).spec_device(),
        final(shared).spec_config_file().spec_config() == command_next_config(
            old(shared).spec_config_file().spec_config(),
            req.data@,
        ),
        final(shared).spec_config_file().spec_persisted() == old(
            shared,
        ).spec_config_file().spec_persisted(),
        match req.data@ {
            ReqCommandsView::GetConfig => r matches CommandOutcome::Done { response }
                && response@.id == req.id && (response@.data matches ResCommandsView::GetConfig {
                config,
            } && config == get_config_result(old(shared).spec_config_file().spec_config())),
            ReqCommandsView::GetStatus => r matches CommandOutcome::Done { response }
                && response@.id == req.id && response@.data == (ResCommandsView::GetStatus {
                status,
            }),
            ReqCommandsView::GetDevice => r matches CommandOutcome::Done { response }
                && response@.id == req.id && (response@.data matches ResCommandsView::GetDevice {
                device,
            } && device == old(shared).spec_device()),
            ReqCommandsView::UpdateConfig { config } => r matches CommandOutcome::Done { response }
                && response@.id == req.id && response@.data == (ResCommandsView::UpdateConfig {
                updated: true,
            }),
            ReqCommandsView::SaveConfig { force_write } => {
                if save_writes(
                    old(shared).spec_config_file().spec_config(),
                    old(shared).spec_config_file().spec_persisted(),
                    force_write,
                ) {
                    r matches CommandOutcome::Save { id, content } && id == req.id && content@
                        == ser_config(old(shared).spec_config_file().spec_config())
                } else {
                    r matches CommandOutcome::Done { response } && response@.id == req.id
                        && response@.data == (ResCommandsView::SaveConfig {
                        saved: true,
                        file_changed: false,
                    })
                }
            },
            ReqCommandsView::Stop => r matches CommandOutcome::Stop { response } && response@.id
                == req.id && response@.data == (ResCommandsView::Stop { stopping: true }),
        },
{
    match req.data {
        ReqCommands::GetConfig => {
            let config = shared.config().duplicate();
            CommandOutcome::Done {
                response: ResCommand { id: req.id, data: ResCommands::GetConfig { config } },
            }
        },
        ReqCommands::GetStatus => CommandOutcome::Done {
            response: ResCommand { id: req.id, data: ResCommands::GetStatus { status } },
        },
        ReqCommands::GetDevice => {
            let device = Device {
                name: shared.device().name.clone(),
                info: crate::device::Info {
                    vendor: shared.device().info.vendor,
                    product: shared.device().info.product,
                    usage: shared.device().info.usage,
                    usage_page: shared.device().info.usage_page,
                    init_features: copy_bytes(&shared.device().info.init_features),
                },
                area: shared.device().area,
                max_pressure: shared.device().max_pressure,
            };
            proof {
                assert(device@ =~~= shared.spec_device());
            }
            CommandOutcome::Done {
                response: ResCommand { id: req.id, data: ResCommands::GetDevice { device } },
            }
        },
        ReqCommands::UpdateConfig { config } => {
            shared.set_config(config);
            CommandOutcome::Done {
                response: ResCommand {
                    id: req.id,
                    data: ResCommands::UpdateConfig { updated: true },
                },
            }
        },
        ReqCommands::SaveConfig { force_write } => {
            if force_write || shared.get_config_file().changed() {
                let content = shared.get_config_file().save_content();
                CommandOutcome::Save { id: req.id, content }
            } else {
                CommandOutcome::Done {
                    response: ResCommand {
                        id: req.id,
                        data: ResCommands::SaveConfig { saved: true, file_changed: false },
                    },
                }
            }
        },
        ReqCommands::Stop => CommandOutcome::Stop {
            response: ResCommand { id: req.id, data: ResCommands::Stop { stopping: true } },
        },
    }
}

/// Record the outcome of the deferred configuration write and build the
/// save response: a successful write marks the live configuration
/// persisted and reports a changed file; a failed one leaves the store as
/// it was and reports that nothing was saved.
pub fn finish_save(shared: &mut SharedData, id: i32, write_ok: bool) -> (r: ResCommand)
    requires
        config_file_ok(old(shared).spec_config_file()),
    ensures
        config_file_ok(final(shared).spec_config_file()),
        final(shared).spec_device() == old(shared).spec_device(),
        final(shared).spec_config_file().spec_config() == old(
            shared,
        ).spec_config_file().spec_config(),
        r@.id == id,
        write_ok ==> final(shared).spec_config_file().spec_persisted() == Some(
            old(shared).spec_config_file().spec_config(),
        ) && r@.data == (ResCommandsView::SaveConfig { saved: true, file_changed: true }),
        !write_ok ==> final(shared).spec_config_file().spec_persisted() == old(
            shared,
        ).spec_config_file().spec_persisted() && r@.data == (ResCommandsView::SaveConfig {
            saved: false,
            file_changed: false,
        }),
{
    if write_ok {
        shared.mark_saved();
        ResCommand { id, data: ResCommands::SaveConfig { saved: true, file_changed: true } }
    } else {
        ResCommand { id, data: ResCommands::SaveConfig { saved: false, file_changed: false } }
    }
}

/// Copy a byte vector element by element.
fn copy_bytes(v: &Vec<u8>) -> (r: Vec<u8>)
    ensures
        r@ == v@,
{
    let mut out: Vec<u8> = Vec::new();
    let n: usize = v.len();
    let mut i: usize = 0;
    while i < n
        invariant
            0 <= i <= n,
            n == v@.len(),
            out@ == v@.subrange(0, i as int),
        decreases n - i,
    {
        out.push(v[i]);
        proof {
            assert(v@.subrange(0, i as int).push(v@[i as int]) =~= v@.subrange(0, i + 1));
        }
        i = i + 1;
    }
    proof {
        assert(v@.subrange(0, n as int) =~= v@);
    }
    out
}

/// Parse of a response/request id: a 32-bit signed number.
pub open spec fn sp_i32(s: Seq<u8>, i: int) -> Option<(int, int)> {
    match sp_int(s, sp_ws(s, i)) {
        Some((v, j)) => if -2147483648 <= v <= 2147483647 {
            Some((v, j))
        } else {
            None
        },
        None => None,
    }
}

/// Closing braces of the data object and the envelope.
pub open spec fn sp_close2(s: Seq<u8>, i: int, id: int, data: ReqCommandsView) -> Option<
    (ReqCommandView, int),
> {
    match sp_tok(s, i, lit("}")) {
        None => None,
        Some(i1) => match sp_tok(s, i1, lit("}")) {
            None => None,
            Some(i2) => Some((ReqCommandView { id: id, data: data }, i2)),
        },
    }
}

/// Parse of the tagged request body after the type field.
pub open spec fn sp_request_data(s: Seq<u8>, i: int, id: int) -> Option<(ReqCommandView, int)> {
    match sp_request_data_body(s, i) {
        None => None,
        Some((d, j)) => sp_close2(s, j, id, d),
    }
}

/// Parse of the request envelope up to and including the type field.
pub open spec fn sp_request_head(s: Seq<u8>, i: int) -> Option<(int, int)> {
    match sp_tok(s, i, lit("{")) {
        None => None,
        Some(i1) => match sp_tok(s, i1, lit("\"id\":")) {
            None => None,
            Some(i2) => match sp_i32(s, i2) {
                None => None,
                Some((id, i3)) => match sp_tok(s, i3, lit(",")) {
                    None => None,
                    Some(i4) => match sp_tok(s, i4, lit("\"data\":")) {
                        None => None,
                        Some(i5) => match sp_tok(s, i5, lit("{")) {
                            None => None,
                            Some(i6) => match sp_tok(s, i6, lit("\"type\":")) {
                                None => None,
                                Some(i7) => Some((id, i7)),
                            },
                        },
                    },
                },
            },
        },
    }
}

/// Parse of one request envelope.
pub open spec fn sp_request(s: Seq<u8>, i: int) -> Option<(ReqCommandView, int)> {
    match sp_request_head(s, i) {
        None => None,
        Some((id, i7)) => sp_request_data(s, i7, id),
    }
}

/// Validity of a parsed request: an update payload must pass the load
/// policy.
pub open spec fn req_ok(v: ReqCommandView) -> bool {
    match v.data {
        ReqCommandsView::UpdateConfig { config } => config_ok(config),
        _ => true,
    }
}

/// The meaning of one request message: the parsed request, if the whole
/// input is one valid request envelope.
pub open spec fn parse_request_spec(s: Seq<u8>) -> Option<ReqCommandView> {
    match sp_request(s, 0) {
        Some((v, j)) => if sp_ws(s, j) == s.len() && req_ok(v) {
            Some(v)
        } else {
            None
        },
        None => None,
    }
}

/// Parse one request message. A malformed or invalid request yields
/// nothing, and the caller logs and ignores it.
/// Parse the request envelope up to and including the type field.
#[verifier::rlimit(60)]
fn p_request_head(s: &[u8]) -> (r: Option<(i64, usize)>)
    ensures
        ({
            let sp = sp_request_head(s@, 0);
            match (r, sp) {
                (Some((id, j)), Some((sid, sj))) => id as int == sid && j as int == sj && j
                    <= s@.len(),
                (None, None) => true,
                _ => false,
            }
        }),
{
    let i1: usize = match p_tok(s, 0, "{") {
        None => {
            return None;
        },
        Some(j) => j,
    };
    let i2: usize = match p_tok(s, i1, "\"id\":") {
        None => {
            return None;
        },
        Some(j) => j,
    };
    let jw: usize = skip_ws(s, i2);
    let (id, i3) = match p_int(s, jw, 2147483647, 2147483648) {
        None => {
            return None;
        },
        Some(v) => v,
    };
    let i4: usize = match p_tok(s, i3, ",") {
        None => {
            return None;
        },
        Some(j) => j,
    };
    let i5: usize = match p_tok(s, i4, "\"data\":") {
        None => {
            return None;
        },
        Some(j) => j,
    };
    let i6: usize = match p_tok(s, i5, "{") {
        None => {
            return None;
        },
        Some(j) => j,
    };
    match p_tok(s, i6, "\"type\":") {
        None => None,
        Some(i7) => Some((id, i7)),
    }
}

/// Parse one request message. A malformed or invalid request yields
/// nothing, and the caller logs and ignores it.
#[verifier::rlimit(100)]
#[verifier::spinoff_prover]
pub fn parse_request(s: &[u8]) -> (r: Option<ReqCommand>)
    ensures
        match parse_request_spec(s@) {
            Some(v) => r matches Some(req) && req@ == v && req_ok(req@),
            None => r is None,
        },
{
    let (id, i7) = match p_request_head(s) {
        None => {
            return None;
        },
        Some(v) => v,
    };
    let (data, i8) = match p_request_data(s, i7) {
        None => {
            return None;
        },
        Some(v) => v,
    };
    let i9: usize = match p_tok(s, i8, "}") {
        None => {
            return None;
        },
        Some(j) => j,
    };
    let i10: usize = match p_tok(s, i9, "}") {
        None => {
            return None;
        },
        Some(j) => j,
    };
    let e: usize = skip_ws(s, i10);
    if e != s.len() {
        return None;
    }
    let valid: bool = match &data {
        ReqCommands::UpdateConfig { config } => config.mapping.width >= 1 && config.mapping.height
            >= 1,
        _ => true,
    };
    if !valid {
        return None;
    }
    Some(ReqCommand { id: id as i32, data })
}

/// Parse the tagged request body, up to but not including the closing
/// braces.
#[verifier::rlimit(100)]
fn p_request_data(s: &[u8], i: usize) -> (r: Option<(ReqCommands, usize)>)
    requires
        i <= s@.len(),
    ensures
        ({
            let sp = sp_request_data_body(s@, i as int);
            match (r, sp) {
                (Some((v, j)), Some((sv, sj))) => v@ == sv && j as int == sj && j <= s@.len(),
                (None, None) => true,
                _ => false,
            }
        }),
        r matches Some(p) ==> (p.0@ matches ReqCommandsView::UpdateConfig { config } ==> (
        config.buttons.len() == 3 && (forall|k: int|
            0 <= k < 3 ==> crate::config::binding_ok(#[trigger] config.buttons[k].binding))
            && crate::mapper::matrix_ok(config.matrix))),
{
    match p_tok(s, i, "\"GetConfig\"") {
        Some(j) => {
            return Some((ReqCommands::GetConfig, j));
        },
        None => {},
    }
    match p_tok(s, i, "\"GetStatus\"") {
        Some(j) => {
            return Some((ReqCommands::GetStatus, j));
        },
        None => {},
    }
    match p_tok(s, i, "\"GetDevice\"") {
        Some(j) => {
            return Some((ReqCommands::GetDevice, j));
        },
        None => {},
    }
    match p_tok(s, i, "\"Stop\"") {
        Some(j) => {
            return Some((ReqCommands::Stop, j));
        },
        None => {},
    }
    match p_tok(s, i, "\"UpdateConfig\"") {
        Some(j) => {
            let j1: usize = match p_tok(s, j, ",") {
                None => {
                    return None;
                },
                Some(x) => x,
            };
            let j2: usize = match p_tok(s, j1, "\"config\":") {
                None => {
                    return None;
                },
                Some(x) => x,
            };
            let (c, j3) = match p_config(s, j2) {
                None => {
                    return None;
                },
                Some(x) => x,
            };
            proof {
                lemma_sp_config_valid(s@, j2 as int);
            }
            return Some((ReqCommands::UpdateConfig { config: c }, j3));
        },
        None => {},
    }
    match p_tok(s, i, "\"SaveConfig\"") {
        None => None,
        Some(j) => {
            let j1: usize = match p_tok(s, j, ",") {
                None => {
                    return None;
                },
                Some(x) => x,
            };
            let j2: usize = match p_tok(s, j1, "\"force_write\":") {
                None => {
                    return None;
                },
                Some(x) => x,
            };
            let (b, j3) = match p_bool(s, j2) {
                None => {
                    return None;
                },
                Some(x) => x,
            };
            Some((ReqCommands::SaveConfig { force_write: b }, j3))
        },
    }
}

/// Parse of the tagged request body without the closing braces, used to
/// relate the executable parser to `sp_request_data`.
pub open spec fn sp_request_data_body(s: Seq<u8>, i: int) -> Option<(ReqCommandsView, int)> {
    match sp_tok(s, i, lit("\"GetConfig\"")) {
        Some(j) => Some((ReqCommandsView::GetConfig, j)),
        None => match sp_tok(s, i, lit("\"GetStatus\"")) {
            Some(j) => Some((ReqCommandsView::GetStatus, j)),
            None => match sp_tok(s, i, lit("\"GetDevice\"")) {
                Some(j) => Some((ReqCommandsView::GetDevice, j)),
                None => match sp_tok(s, i, lit("\"Stop\"")) {
                    Some(j) => Some((ReqCommandsView::Stop, j)),
                    None => match sp_tok(s, i, lit("\"UpdateConfig\"")) {
                        Some(j) => match sp_tok(s, j, lit(",")) {
                            None => None,
                            Some(j1) => match sp_tok(s, j1, lit("\"config\":")) {
                                None => None,
                                Some(j2) => match sp_config(s, j2) {
                                    None => None,
                                    Some((c, j3)) => Some(
                                        (ReqCommandsView::UpdateConfig { config: c }, j3),
                                    ),
                                },
                            },
                        },
                        None => match sp_tok(s, i, lit("\"SaveConfig\"")) {
                            None => None,
                            Some(j) => match sp_tok(s, j, lit(",")) {
                                None => None,
                                Some(j1) => match sp_tok(s, j1, lit("\"force_write\":")) {
                                    None => None,
                                    Some(j2) => match sp_bool(s, j2) {
                                        None => None,
                                        Some((b, j3)) => Some(
                                            (ReqCommandsView::SaveConfig { force_write: b }, j3),
                                        ),
                                    },
                                },
                            },
                        },
                    },
                },
            },
        },
    }
}

/// The hexadecimal digit of a value below sixteen, in upper case.
pub open spec fn hex_digit(n: int) -> u8
    recommends
        0 <= n < 16,
{
    if n < 10 {
        (48 + n) as u8
    } else {
        (55 + n) as u8
    }
}

/// The JSON form of one byte inside a string: the quote and the backslash
/// as their two-byte escapes, control bytes as a four-digit escape, and
/// everything else (including UTF-8 continuation bytes) as itself.
pub open spec fn esc_byte(b: u8) -> Seq<u8> {
    if b == 34 {
        seq![92u8, 34u8]
    } else if b == 92 {
        seq![92u8, 92u8]
    } else if b < 32 {
        seq![92u8, 117u8, 48u8, 48u8, hex_digit(b as int / 16), hex_digit(b as int % 16)]
    } else {
        seq![b]
    }
}

/// The JSON form of the bytes of a string, escaped byte by byte.
pub open spec fn json_str_bytes(bs: Seq<u8>) -> Seq<u8>
    decreases bs.len(),
{
    if bs.len() == 0 {
        Seq::empty()
    } else {
        esc_byte(bs[0]) + json_str_bytes(bs.drop_first())
    }
}

/// Serialized form of the bytes of a feature report after the first.
pub open spec fn ser_bytes_rest(bs: Seq<u8>) -> Seq<u8>
    decreases bs.len(),
{
    if bs.len() == 0 {
        Seq::empty()
    } else {
        lit(",") + ser_nat(bs[0] as int) + ser_bytes_rest(bs.drop_first())
    }
}

/// Serialized form of a byte list body.
pub open spec fn ser_bytes(bs: Seq<u8>) -> Seq<u8> {
    if bs.len() == 0 {
        Seq::empty()
    } else {
        ser_nat(bs[0] as int) + ser_bytes_rest(bs.drop_first())
    }
}

/// Serialized form of the device identity.
pub open spec fn ser_info(iv: crate::device::InfoView) -> Seq<u8> {
    lit("{") + lit("\"vendor\":") + ser_nat(iv.vendor as int) + lit(",") + lit("\"product\":")
        + ser_nat(iv.product as int) + lit(",") + lit("\"usage\":") + ser_nat(iv.usage as int)
        + lit(",") + lit("\"usage_page\":") + ser_nat(iv.usage_page as int) + lit(",") + lit(
        "\"init_features\":",
    ) + lit("[") + ser_bytes(iv.init_features) + lit("]") + lit("}")
}

/// Serialized form of the device descriptor.
pub open spec fn ser_device(d: DeviceView) -> Seq<u8> {
    lit("{") + lit("\"name\":") + seq![34u8] + json_str_bytes(vstd::utf8::encode_utf8(d.name))
        + seq![34u8] + lit(",") + lit("\"info\":") + ser_info(d.info) + lit(",") + lit(
        "\"area\":",
    ) + ser_area(d.area) + lit(",") + lit("\"max_pressure\":") + ser_nat(d.max_pressure as int)
        + lit("}")
}

/// Serialized form of a connection status.
pub open spec fn ser_status(st: TabletStatus) -> Seq<u8> {
    match st {
        TabletStatus::NotConnected => lit("\"NotConnected\""),
        TabletStatus::Connected => lit("\"Connected\""),
        TabletStatus::Error => lit("\"Error\""),
    }
}

/// Serialized form of the tagged response body.
pub open spec fn ser_response_data(d: ResCommandsView) -> Seq<u8> {
    match d {
        ResCommandsView::GetConfig { config } => lit("\"GetConfig\"") + lit(",") + lit(
            "\"config\":",
        ) + ser_config(config),
        ResCommandsView::GetStatus { status } => lit("\"GetStatus\"") + lit(",") + lit(
            "\"status\":",
        ) + ser_status(status),
        ResCommandsView::GetDevice { device } => lit("\"GetDevice\"") + lit(",") + lit(
            "\"device\":",
        ) + ser_device(device),
        ResCommandsView::UpdateConfig { updated } => lit("\"UpdateConfig\"") + lit(",") + lit(
            "\"updated\":",
        ) + ser_bool(updated),
        ResCommandsView::SaveConfig { saved, file_changed } => lit("\"SaveConfig\"") + lit(",")
            + lit("\"saved\":") + ser_bool(saved) + lit(",") + lit("\"file_changed\":") + ser_bool(
            file_changed,
        ),
        ResCommandsView::Stop { stopping } => lit("\"Stop\"") + lit(",") + lit("\"stopping\":")
            + ser_bool(stopping),
    }
}

/// Serialized form of one response envelope.
pub open spec fn ser_response(r: ResCommandView) -> Seq<u8> {
    lit("{") + lit("\"id\":") + ser_int(r.id) + lit(",") + lit("\"data\":") + lit("{") + lit(
        "\"type\":",
    ) + ser_response_data(r.data) + lit("}") + lit("}")
}

/// Validity of a response: serialized payloads must satisfy their
/// policies.
pub open spec fn res_ok(r: ResCommandView) -> bool {
    match r.data {
        ResCommandsView::GetConfig { config } => config_ok(config),
        ResCommandsView::GetDevice { device } => device_ok(device),
        _ => true,
    }
}

/// Append a boolean.
fn push_bool(out: &mut Vec<u8>, b: bool)
    ensures
        final(out)@ == old(out)@ + ser_bool(b),
{
    if b {
        push_lit(out, "true");
    } else {
        push_lit(out, "false");
    }
}

/// Append the serialized bytes of a feature report after the first.
fn push_bytes_rest(out: &mut Vec<u8>, bs: &Vec<u8>, from: usize)
    requires
        from <= bs@.len(),
    ensures
        final(out)@ == old(out)@ + ser_bytes_rest(bs@.skip(from as int)),
    decreases bs@.len() - from,
{
    if from < bs.len() {
        push_lit(out, ",");
        push_nat(out, bs[from] as u64);
        push_bytes_rest(out, bs, from + 1);
        proof {
            let rem = bs@.skip(from as int);
            assert(rem[0] == bs@[from as int]);
            assert(rem.drop_first() =~= bs@.skip(from + 1));
            assert(out@ =~= old(out)@ + ser_bytes_rest(rem));
        }
    } else {
        proof {
            assert(bs@.skip(from as int).len() == 0);
            assert(out@ =~= old(out)@ + ser_bytes_rest(bs@.skip(from as int)));
        }
    }
}

/// Append a serialized byte list body.
fn push_bytes_list(out: &mut Vec<u8>, bs: &Vec<u8>)
    ensures
        final(out)@ == old(out)@ + ser_bytes(bs@),
{
    if bs.len() > 0 {
        push_nat(out, bs[0] as u64);
        push_bytes_rest(out, bs, 1);
        proof {
            assert(bs@.skip(1) =~= bs@.drop_first());
            assert(out@ =~= old(out)@ + ser_bytes(bs@));
        }
    } else {
        proof {
            assert(out@ =~= old(out)@ + ser_bytes(bs@));
        }
    }
}

/// Append one byte of a string in its JSON form.
fn push_esc_byte(out: &mut Vec<u8>, b: u8)
    ensures
        final(out)@ == old(out)@ + esc_byte(b),
{
    if b == 34 {
        out.push(92);
        out.push(34);
        proof {
            assert(out@ =~= old(out)@ + esc_byte(b));
        }
    } else if b == 92 {
        out.push(92);
        out.push(92);
        proof {
            assert(out@ =~= old(out)@ + esc_byte(b));
        }
    } else if b < 32 {
        out.push(92);
        out.push(117);
        out.push(48);
        out.push(48);
        let hi: u8 = b / 16;
        let lo: u8 = b % 16;
        if hi < 10 {
            out.push(48 + hi);
        } else {
            out.push(55 + hi);
        }
        if lo < 10 {
            out.push(48 + lo);
        } else {
            out.push(55 + lo);
        }
        proof {
            assert(out@ =~= old(out)@ + esc_byte(b));
        }
    } else {
        out.push(b);
        proof {
            assert(out@ =~= old(out)@ + esc_byte(b));
        }
    }
}

/// Append the JSON form of the bytes of a string, from `from` on.
fn push_str_bytes(out: &mut Vec<u8>, bs: &[u8], from: usize)
    requires
        from <= bs@.len(),
    ensures
        final(out)@ == old(out)@ + json_str_bytes(bs@.skip(from as int)),
    decreases bs@.len() - from,
{
    if from < bs.len() {
        push_esc_byte(out, bs[from]);
        push_str_bytes(out, bs, from + 1);
        proof {
            let rem = bs@.skip(from as int);
            assert(rem[0] == bs@[from as int]);
            assert(rem.drop_first() =~= bs@.skip(from + 1));
            assert(out@ =~= old(out)@ + json_str_bytes(rem));
        }
    } else {
        proof {
            assert(bs@.skip(from as int).len() == 0);
            assert(out@ =~= old(out)@ + json_str_bytes(bs@.skip(from as int)));
        }
    }
}

/// Append a quoted name: its UTF-8 bytes, escaped byte by byte.
fn push_name(out: &mut Vec<u8>, name: &String)
    ensures
        final(out)@ == old(out)@ + (seq![34u8] + json_str_bytes(vstd::utf8::encode_utf8(name@))
            + seq![34u8]),
{
    out.push(34);
    let ns: &str = name.as_str();
    let bs: &[u8] = ns.as_bytes();
    proof {
        assert(bs@.skip(0) =~= vstd::utf8::encode_utf8(name@));
    }
    push_str_bytes(out, bs, 0);
    out.push(34);
    proof {
        assert(out@ =~= old(out)@ + (seq![34u8] + json_str_bytes(vstd::utf8::encode_utf8(name@))
            + seq![34u8]));
    }
}

/// Append the serialized device identity.
#[verifier::rlimit(100)]
fn push_info(out: &mut Vec<u8>, info: &crate::device::Info)
    ensures
        final(out)@ == old(out)@ + ser_info(info@),
{
    push_lit(out, "{");
    push_lit(out, "\"vendor\":");
    push_nat(out, info.vendor as u64);
    push_lit(out, ",");
    push_lit(out, "\"product\":");
    push_nat(out, info.product as u64);
    push_lit(out, ",");
    push_lit(out, "\"usage\":");
    push_nat(out, info.usage as u64);
    push_lit(out, ",");
    push_lit(out, "\"usage_page\":");
    push_nat(out, info.usage_page as u64);
    push_lit(out, ",");
    push_lit(out, "\"init_features\":");
    push_lit(out, "[");
    push_bytes_list(out, &info.init_features);
    push_lit(out, "]");
    push_lit(out, "}");
    proof {
        assert(out@ =~= old(out)@ + ser_info(info@));
    }
}

/// Append the serialized device descriptor.
#[verifier::rlimit(100)]
fn push_device(out: &mut Vec<u8>, device: &Device)
    requires
        device_ok(device@),
    ensures
        final(out)@ == old(out)@ + ser_device(device@),
{
    push_lit(out, "{");
    push_lit(out, "\"name\":");
    push_name(out, &device.name);
    push_lit(out, ",");
    push_lit(out, "\"info\":");
    push_info(out, &device.info);
    push_lit(out, ",");
    push_lit(out, "\"area\":");
    push_area_tokens(out, &device.area);
    push_lit(out, ",");
    push_lit(out, "\"max_pressure\":");
    push_nat(out, device.max_pressure as u64);
    push_lit(out, "}");
    proof {
        assert(out@ =~= old(out)@ + ser_device(device@));
    }
}

/// Append a serialized area.
fn push_area_tokens(out: &mut Vec<u8>, a: &crate::area::Area)
    ensures
        final(out)@ == old(out)@ + ser_area(*a),
{
    push_lit(out, "{");
    push_lit(out, "\"x\":");
    push_nat(out, a.x as u64);
    push_lit(out, ",");
    push_lit(out, "\"y\":");
    push_nat(out, a.y as u64);
    push_lit(out, ",");
    push_lit(out, "\"width\":");
    push_nat(out, a.width as u64);
    push_lit(out, ",");
    push_lit(out, "\"height\":");
    push_nat(out, a.height as u64);
    push_lit(out, "}");
    proof {
        assert(out@ =~= old(out)@ + ser_area(*a));
    }
}

/// Serialize one response envelope into its wire form.
#[verifier::rlimit(100)]
#[verifier::spinoff_prover]
pub fn serialize_response(res: &ResCommand) -> (r: Vec<u8>)
    requires
        res_ok(res@),
    ensures
        r@ == ser_response(res@),
{
    let mut out: Vec<u8> = Vec::new();
    push_lit(&mut out, "{");
    push_lit(&mut out, "\"id\":");
    push_int(&mut out, res.id as i64);
    push_lit(&mut out, ",");
    push_lit(&mut out, "\"data\":");
    push_lit(&mut out, "{");
    push_lit(&mut out, "\"type\":");
    push_response_data(&mut out, &res.data);
    push_lit(&mut out, "}");
    push_lit(&mut out, "}");
    proof {
        assert(out@ =~= ser_response(res@));
    }
    out
}

/// Append the serialized tagged response body.
#[verifier::rlimit(100)]
fn push_response_data(out: &mut Vec<u8>, d: &ResCommands)
    requires
        match d@ {
            ResCommandsView::GetConfig { config } => config_ok(config),
            ResCommandsView::GetDevice { device } => device_ok(device),
            _ => true,
        },
    ensures
        final(out)@ == old(out)@ + ser_response_data(d@),
{
    match d {
        ResCommands::GetConfig { config } => {
            push_lit(out, "\"GetConfig\"");
            push_lit(out, ",");
            push_lit(out, "\"config\":");
            let body = serialize_config(config);
            push_vec(out, &body);
            proof {
                assert(out@ =~= old(out)@ + ser_response_data(d@));
            }
        },
        ResCommands::GetStatus { status } => {
            push_lit(out, "\"GetStatus\"");
            push_lit(out, ",");
            push_lit(out, "\"status\":");
            match status {
                TabletStatus::NotConnected => push_lit(out, "\"NotConnected\""),
                TabletStatus::Connected => push_lit(out, "\"Connected\""),
                TabletStatus::Error => push_lit(out, "\"Error\""),
            }
            proof {
                assert(out@ =~= old(out)@ + ser_response_data(d@));
            }
        },
        ResCommands::GetDevice { device } => {
            push_lit(out, "\"GetDevice\"");
            push_lit(out, ",");
            push_lit(out, "\"device\":");
            push_device(out, device);
            proof {
                assert(out@ =~= old(out)@ + ser_response_data(d@));
            }
        },
        ResCommands::UpdateConfig { updated } => {
            push_lit(out, "\"UpdateConfig\"");
            push_lit(out, ",");
            push_lit(out, "\"updated\":");
            push_bool(out, *updated);
            proof {
                assert(out@ =~= old(out)@ + ser_response_data(d@));
            }
        },
        ResCommands::SaveConfig { saved, file_changed } => {
            push_lit(out, "\"SaveConfig\"");
            push_lit(out, ",");
            push_lit(out, "\"saved\":");
            push_bool(out, *saved);
            push_lit(out, ",");
            push_lit(out, "\"file_changed\":");
            push_bool(out, *file_changed);
            proof {
                assert(out@ =~= old(out)@ + ser_response_data(d@));
            }
        },
        ResCommands::Stop { stopping } => {
            push_lit(out, "\"Stop\"");
            push_lit(out, ",");
            push_lit(out, "\"stopping\":");
            push_bool(out, *stopping);
            proof {
                assert(out@ =~= old(out)@ + ser_response_data(d@));
            }
        },
    }
}

/// Append the contents of another byte vector.
fn push_vec(out: &mut Vec<u8>, v: &Vec<u8>)
    ensures
        final(out)@ == old(out)@ + v@,
{
    let n: usize = v.len();
    let mut i: usize = 0;
    while i < n
        invariant
            0 <= i <= n,
            n == v@.len(),
            out@ == old(out)@ + v@.subrange(0, i as int),
        decreases n - i,
    {
        out.push(v[i]);
        proof {
            assert(old(out)@ + v@.subrange(0, i as int) + seq![v@[i as int]] =~= old(out)@
                + v@.subrange(0, i + 1));
        }
        i = i + 1;
    }
    proof {
        assert(v@.subrange(0, n as int) =~= v@);
    }
}

} // verus!
