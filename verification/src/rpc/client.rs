//! The Discord IPC client: its connection state, the frame format of its
//! messages, where it looks for the socket and how it starts Discord.
use vstd::prelude::*;

use serde_json::Error as JsonError;

use crate::error::Error;
use crate::text::{chars_of, join_path, opt_view, path_join, seq_starts_with, starts_with, str_eq};

verus! {

// ---------------------------------------------------------------------------
// Connection state
// ---------------------------------------------------------------------------
/// Which application, if any, the client holds an open connection for.
#[derive(Debug)]
pub struct RpcClient {
    connected: bool,
    application_id: String,
}

impl RpcClient {
    /// The application the client is connected for, if any.
    pub closed spec fn connected_to(&self) -> Option<Seq<char>> {
        if self.connected {
            Some(self.application_id@)
        } else {
            None
        }
    }

    /// A client with no connection.
    pub fn new() -> (res: Self)
        ensures
            res.connected_to() is None,
    {
        RpcClient { connected: false, application_id: String::new() }
    }

    /// Whether the client already holds a connection for `application_id`,
    /// so that no new connection and handshake are needed.
    pub fn is_connected_to(&self, application_id: &str) -> (b: bool)
        ensures
            b == (self.connected_to() == Some(application_id@)),
    {
        self.connected && str_eq(self.application_id.as_str(), application_id)
    }

    /// Records that a connection for `application_id` has been opened.
    pub fn record_connection(&mut self, application_id: &str)
        ensures
            final(self).connected_to() == Some(application_id@),
    {
        self.connected = true;
        self.application_id = application_id.to_owned();
    }
}

impl Default for RpcClient {
    fn default() -> (res: Self)
        ensures
            res.connected_to() is None,
    {
        RpcClient::new()
    }
}

/// A connection recorded for an application is reused for that application
/// and for no other.
pub proof fn law_connection_reuse(client: RpcClient, application_id: Seq<char>, other: Seq<char>)
    requires
        client.connected_to() == Some(application_id),
        other != application_id,
    ensures
        client.connected_to() != Some(other),
{
}

// ---------------------------------------------------------------------------
// Frames
// ---------------------------------------------------------------------------
/// The four little-endian bytes of a 32-bit length.
pub open spec fn le_u32_bytes(n: u32) -> Seq<u8> {
    seq![
        (n % 256) as u8,
        ((n / 256) % 256) as u8,
        ((n / 65536) % 256) as u8,
        (n / 16777216) as u8,
    ]
}

/// The number four little-endian bytes stand for.
pub open spec fn le_u32_value(b: Seq<u8>) -> int {
    b[0] + 256 * b[1] + 65536 * b[2] + 16777216 * b[3]
}

/// A message as written to the socket: the body's length in four
/// little-endian bytes (taken modulo 2^32), then the body.
pub open spec fn frame_of(body: Seq<u8>) -> Seq<u8> {
    le_u32_bytes((body.len() % 0x1_0000_0000) as u32) + body
}

/// The frame that carries `body`.
pub fn encode_frame(body: &[u8]) -> (frame: Vec<u8>)
    ensures
        frame@ == frame_of(body@),
{
    let n: u32 = ((body.len() as u64) % 0x1_0000_0000u64) as u32;
    let mut frame: Vec<u8> = Vec::new();
    frame.push((n % 256) as u8);
    frame.push(((n / 256) % 256) as u8);
    frame.push(((n / 65536) % 256) as u8);
    frame.push((n / 16777216) as u8);
    assert(frame@ =~= le_u32_bytes((body@.len() % 0x1_0000_0000) as u32));
    let ghost header = frame@;
    for i in 0..body.len()
        invariant
            frame@ == header + body@.take(i as int),
    {
        frame.push(body[i]);
        assert(header + body@.take(i + 1) =~= (header + body@.take(i as int)).push(body@[i as int]));
    }
    assert(body@.take(body@.len() as int) =~= body@);
    frame
}

/// The body length announced by a frame header.
pub fn decode_frame_length(header: [u8; 4]) -> (n: u32)
    ensures
        n as int == le_u32_value(header@),
{
    let b0 = header[0] as u32;
    let b1 = header[1] as u32;
    let b2 = header[2] as u32;
    let b3 = header[3] as u32;
    b0 + 256 * b1 + 65536 * b2 + 16777216 * b3
}

/// Encoding a length and decoding it again gives the length back.
pub proof fn law_length_roundtrip(n: u32)
    ensures
        le_u32_value(le_u32_bytes(n)) == n,
{
    let b = le_u32_bytes(n);
    assert(b[0] == n % 256);
    assert(b[1] == (n / 256) % 256);
    assert(b[2] == (n / 65536) % 256);
    assert(b[3] == n / 16777216) by {
        assert(n / 16777216 < 256) by (nonlinear_arith);
    }
    assert((n % 256) + 256 * ((n / 256) % 256) + 65536 * ((n / 65536) % 256) + 16777216 * (n
        / 16777216) == n) by (nonlinear_arith);
}

/// Decoding four bytes and encoding the number again gives the bytes back.
pub proof fn law_bytes_roundtrip(b: Seq<u8>)
    requires
        b.len() == 4,
    ensures
        le_u32_bytes(le_u32_value(b) as u32) == b,
{
    let v = le_u32_value(b);
    let (b0, b1, b2, b3) = (b[0] as int, b[1] as int, b[2] as int, b[3] as int);
    assert(0 <= v <= u32::MAX) by (nonlinear_arith)
        requires
            v == b0 + 256 * b1 + 65536 * b2 + 16777216 * b3,
            0 <= b0 < 256,
            0 <= b1 < 256,
            0 <= b2 < 256,
            0 <= b3 < 256,
    ;
    assert(v % 256 == b0 && (v / 256) % 256 == b1 && (v / 65536) % 256 == b2 && v / 16777216
        == b3) by (nonlinear_arith)
        requires
            v == b0 + 256 * b1 + 65536 * b2 + 16777216 * b3,
            0 <= b0 < 256,
            0 <= b1 < 256,
            0 <= b2 < 256,
            0 <= b3 < 256,
    ;
    assert(le_u32_bytes(v as u32) =~= b);
}

/// A frame announces exactly the length of its body, which follows the
/// header unchanged.
pub proof fn law_frame_carries_body(body: Seq<u8>)
    requires
        body.len() <= u32::MAX,
    ensures
        le_u32_value(frame_of(body).take(4)) == body.len(),
        frame_of(body).skip(4) == body,
{
    let n = (body.len() % 0x1_0000_0000) as u32;
    assert(n == body.len());
    law_length_roundtrip(n);
    assert(frame_of(body).take(4) =~= le_u32_bytes(n));
    assert(frame_of(body).skip(4) =~= body);
}

// ---------------------------------------------------------------------------
// Replies
// ---------------------------------------------------------------------------
/// The bytes are one complete JSON value, as `serde_json::from_slice` parses
/// them.
pub uninterp spec fn json_value_accepts(bytes: Seq<u8>) -> bool;

/// Calls `serde_json::from_slice::<serde_json::Value>` and keeps only whether
/// it succeeded. Trusted: it succeeds exactly when `json_value_accepts` holds
/// of the bytes; the parsed value itself is discarded.
#[verifier::external_body]
fn parse_json_value(bytes: &[u8]) -> (res: Result<(), JsonError>)
    ensures
        res is Ok <==> json_value_accepts(bytes@),
{
    match serde_json::from_slice::<serde_json::Value>(bytes) {
        Ok(_) => Ok(()),
        Err(e) => Err(e),
    }
}

/// Accepts a reply body that is valid JSON; anything else is a JSON error.
pub fn check_response(payload: &[u8]) -> (res: Result<(), Error>)
    ensures
        res is Ok <==> json_value_accepts(payload@),
        res matches Err(e) ==> e is Json,
{
    match parse_json_value(payload) {
        Ok(()) => Ok(()),
        Err(e) => Err(Error::Json(e)),
    }
}

// ---------------------------------------------------------------------------
// Socket discovery
// ---------------------------------------------------------------------------
/// The prefix of every Discord IPC socket's file name.
pub open spec fn socket_prefix() -> Seq<char> {
    "discord-ipc-"@
}

/// Whether a file name is that of a Discord IPC socket.
pub fn is_discord_socket_candidate(file_name: &str) -> (b: bool)
    ensures
        b == seq_starts_with(file_name@, socket_prefix()),
{
    let name = chars_of(file_name);
    let prefix = chars_of("discord-ipc-");
    starts_with(name.as_slice(), prefix.as_slice())
}

/// Where to look for the IPC socket: a path to try as it is, or a directory
/// to search, at any depth, for files named like a socket.
#[derive(Debug, PartialEq, Eq)]
pub enum SocketCandidate {
    Path(String),
    SearchUnder(String),
}

/// The contents of a [`SocketCandidate`].
pub enum CandidateView {
    Path(Seq<char>),
    SearchUnder(Seq<char>),
}

impl View for SocketCandidate {
    type V = CandidateView;

    open spec fn view(&self) -> CandidateView {
        match self {
            SocketCandidate::Path(p) => CandidateView::Path(p@),
            SocketCandidate::SearchUnder(p) => CandidateView::SearchUnder(p@),
        }
    }
}

/// The contents of a sequence of candidates.
pub open spec fn candidate_views(s: Seq<SocketCandidate>) -> Seq<CandidateView> {
    s.map_values(|c: SocketCandidate| c@)
}

/// Candidates under the runtime directory.
pub open spec fn runtime_candidates(runtime_dir: Seq<char>) -> Seq<CandidateView> {
    seq![
        CandidateView::Path(path_join(runtime_dir, "discord-ipc-0"@)),
        CandidateView::Path(path_join(runtime_dir, "discord-ipc-1"@)),
        CandidateView::SearchUnder(runtime_dir),
    ]
}

/// Candidates under the home directory: the usual install locations of the
/// stable, PTB and Canary clients (native, Flatpak and macOS), then searches of
/// the configuration, application support and data directories.
pub open spec fn home_candidates(home: Seq<char>) -> Seq<CandidateView> {
    seq![
        CandidateView::Path(path_join(home, ".config/discord/discord-ipc-0"@)),
        CandidateView::Path(path_join(home, ".config/discordptb/discord-ipc-0"@)),
        CandidateView::Path(path_join(home, ".config/discordcanary/discord-ipc-0"@)),
        CandidateView::Path(path_join(home, ".local/share/discord/discord-ipc-0"@)),
        CandidateView::Path(
            path_join(home, ".var/app/com.discordapp.Discord/config/discord/discord-ipc-0"@),
        ),
        CandidateView::Path(
            path_join(home, ".var/app/com.discordapp.Discord/config/discordptb/discord-ipc-0"@),
        ),
        CandidateView::Path(
            path_join(
                home,
                ".var/app/com.discordapp.Discord/config/discordcanary/discord-ipc-0"@,
            ),
        ),
        CandidateView::Path(path_join(home, "Library/Application Support/discord/discord-ipc-0"@)),
        CandidateView::Path(
            path_join(home, "Library/Application Support/discordptb/discord-ipc-0"@),
        ),
        CandidateView::Path(
            path_join(home, "Library/Application Support/discordcanary/discord-ipc-0"@),
        ),
        CandidateView::Path(path_join(home, ".config/discord-ipc-0"@)),
        CandidateView::Path(path_join(home, ".config/discord/discord-ipc-1"@)),
        CandidateView::Path(path_join(home, ".local/share/discord/discord-ipc-1"@)),
        CandidateView::SearchUnder(path_join(home, ".config"@)),
        CandidateView::SearchUnder(path_join(home, "Library/Application Support"@)),
        CandidateView::SearchUnder(path_join(home, ".local/share"@)),
    ]
}

/// The system-wide directories searched last.
pub open spec fn system_candidates() -> Seq<CandidateView> {
    seq![
        CandidateView::SearchUnder("/run/user"@),
        CandidateView::SearchUnder("/var/run"@),
        CandidateView::SearchUnder("/tmp"@),
    ]
}

/// Every place to look for the socket, in the order they are tried: the
/// explicit `DISCORD_IPC_PATH`, the runtime directory, the home directory,
/// then system-wide directories.
pub open spec fn socket_plan(
    ipc_path: Option<Seq<char>>,
    runtime_dir: Option<Seq<char>>,
    home_dir: Option<Seq<char>>,
) -> Seq<CandidateView> {
    let explicit = match ipc_path {
        Some(p) => seq![CandidateView::Path(p)],
        None => Seq::empty(),
    };
    let runtime = match runtime_dir {
        Some(r) => runtime_candidates(r),
        None => Seq::empty(),
    };
    let home = match home_dir {
        Some(h) => home_candidates(h),
        None => Seq::empty(),
    };
    explicit + runtime + home + system_candidates()
}

fn push_candidate(v: &mut Vec<SocketCandidate>, c: SocketCandidate)
    ensures
        candidate_views(final(v)@) == candidate_views(old(v)@).push(c@),
{
    let ghost before = v@;
    v.push(c);
    assert(candidate_views(v@) =~= candidate_views(before).push(c@));
}

fn push_path(v: &mut Vec<SocketCandidate>, base: &str, rel: &str)
    ensures
        candidate_views(final(v)@) == candidate_views(old(v)@).push(
            CandidateView::Path(path_join(base@, rel@)),
        ),
{
    push_candidate(v, SocketCandidate::Path(join_path(base, rel)));
}

fn push_search(v: &mut Vec<SocketCandidate>, base: &str, rel: &str)
    ensures
        candidate_views(final(v)@) == candidate_views(old(v)@).push(
            CandidateView::SearchUnder(path_join(base@, rel@)),
        ),
{
    push_candidate(v, SocketCandidate::SearchUnder(join_path(base, rel)));
}

fn push_runtime_candidates(v: &mut Vec<SocketCandidate>, runtime_dir: &str)
    ensures
        candidate_views(final(v)@) == candidate_views(old(v)@) + runtime_candidates(
            runtime_dir@,
        ),
{
    let ghost before = candidate_views(v@);
    push_path(v, runtime_dir, "discord-ipc-0");
    push_path(v, runtime_dir, "discord-ipc-1");
    push_candidate(v, SocketCandidate::SearchUnder(runtime_dir.to_owned()));
    assert(candidate_views(v@) =~= before + runtime_candidates(runtime_dir@));
}

fn push_home_candidates(v: &mut Vec<SocketCandidate>, home: &str)
    ensures
        candidate_views(final(v)@) == candidate_views(old(v)@) + home_candidates(home@),
{
    let ghost before = candidate_views(v@);
    push_path(v, home, ".config/discord/discord-ipc-0");
    push_path(v, home, ".config/discordptb/discord-ipc-0");
    push_path(v, home, ".config/discordcanary/discord-ipc-0");
    push_path(v, home, ".local/share/discord/discord-ipc-0");
    push_path(v, home, ".var/app/com.discordapp.Discord/config/discord/discord-ipc-0");
    push_path(v, home, ".var/app/com.discordapp.Discord/config/discordptb/discord-ipc-0");
    push_path(v, home, ".var/app/com.discordapp.Discord/config/discordcanary/discord-ipc-0");
    push_path(v, home, "Library/Application Support/discord/discord-ipc-0");
    push_path(v, home, "Library/Application Support/discordptb/discord-ipc-0");
    push_path(v, home, "Library/Application Support/discordcanary/discord-ipc-0");
    push_path(v, home, ".config/discord-ipc-0");
    push_path(v, home, ".config/discord/discord-ipc-1");
    push_path(v, home, ".local/share/discord/discord-ipc-1");
    push_search(v, home, ".config");
    push_search(v, home, "Library/Application Support");
    push_search(v, home, ".local/share");
    assert(candidate_views(v@) =~= before + home_candidates(home@));
}

/// The places to look for the IPC socket, in order, given the
/// `DISCORD_IPC_PATH` and `XDG_RUNTIME_DIR` settings and the home directory.
pub fn socket_search_plan(
    ipc_path: Option<String>,
    runtime_dir: Option<String>,
    home_dir: Option<String>,
) -> (res: Vec<SocketCandidate>)
    ensures
        candidate_views(res@) == socket_plan(
            opt_view(ipc_path),
            opt_view(runtime_dir),
            opt_view(home_dir),
        ),
{
    let mut v: Vec<SocketCandidate> = Vec::new();
    let ghost explicit = match opt_view(ipc_path) {
        Some(p) => seq![CandidateView::Path(p)],
        None => Seq::<CandidateView>::empty(),
    };
    let ghost runtime = match opt_view(runtime_dir) {
        Some(r) => runtime_candidates(r),
        None => Seq::<CandidateView>::empty(),
    };
    let ghost home = match opt_view(home_dir) {
        Some(h) => home_candidates(h),
        None => Seq::<CandidateView>::empty(),
    };
    assert(candidate_views(v@) =~= Seq::<CandidateView>::empty());
    match ipc_path {
        Some(p) => push_candidate(&mut v, SocketCandidate::Path(p)),
        None => {},
    }
    assert(candidate_views(v@) =~= explicit);
    match &runtime_dir {
        Some(r) => push_runtime_candidates(&mut v, r.as_str()),
        None => {},
    }
    assert(candidate_views(v@) =~= explicit + runtime);
    match &home_dir {
        Some(h) => push_home_candidates(&mut v, h.as_str()),
        None => {},
    }
    assert(candidate_views(v@) =~= explicit + runtime + home);
    let ghost before = candidate_views(v@);
    push_candidate(&mut v, SocketCandidate::SearchUnder("/run/user".to_owned()));
    push_candidate(&mut v, SocketCandidate::SearchUnder("/var/run".to_owned()));
    push_candidate(&mut v, SocketCandidate::SearchUnder("/tmp".to_owned()));
    assert(candidate_views(v@) =~= before + system_candidates());
    v
}

/// The home directory's candidates depend on the home directory alone: for
/// any `DISCORD_IPC_PATH` and runtime directory, knowing the home directory
/// adds exactly its candidates, right before the system-wide searches, and
/// leaves every other candidate in place.
pub proof fn law_home_candidates_always_searched(
    ipc_path: Option<Seq<char>>,
    runtime_dir: Option<Seq<char>>,
    home: Seq<char>,
)
    ensures
        ({
            let without = socket_plan(ipc_path, runtime_dir, None);
            let with = socket_plan(ipc_path, runtime_dir, Some(home));
            &&& without.len() >= system_candidates().len()
            &&& with == without.subrange(0, without.len() - system_candidates().len())
                + home_candidates(home) + system_candidates()
        }),
        forall|k: int|
            0 <= k < home_candidates(home).len() ==> socket_plan(
                ipc_path,
                runtime_dir,
                Some(home),
            ).contains(#[trigger] home_candidates(home)[k]),
        socket_plan(None, None, Some(home)) == home_candidates(home) + system_candidates(),
        socket_plan(ipc_path, runtime_dir, Some(home)).contains(
            CandidateView::Path(path_join(home, ".config/discord/discord-ipc-0"@)),
        ),
        socket_plan(ipc_path, runtime_dir, Some(home)).contains(
            CandidateView::Path(path_join(home, "Library/Application Support/discord/discord-ipc-0"@)),
        ),
        socket_plan(ipc_path, runtime_dir, Some(home)).contains(
            CandidateView::SearchUnder(path_join(home, ".config"@)),
        ),
{
    let without = socket_plan(ipc_path, runtime_dir, None);
    let with = socket_plan(ipc_path, runtime_dir, Some(home));
    let head = without.subrange(0, without.len() - system_candidates().len());
    assert(without == head + system_candidates());
    assert(with == head + home_candidates(home) + system_candidates());
    assert forall|k: int| 0 <= k < home_candidates(home).len() implies with.contains(
        #[trigger] home_candidates(home)[k],
    ) by {
        assert(with[head.len() + k] == home_candidates(home)[k]);
    }
    assert(socket_plan(None, None, Some(home)) =~= home_candidates(home) + system_candidates());
    assert(home_candidates(home)[0] == CandidateView::Path(
        path_join(home, ".config/discord/discord-ipc-0"@),
    ));
    assert(home_candidates(home)[7] == CandidateView::Path(
        path_join(home, "Library/Application Support/discord/discord-ipc-0"@),
    ));
    assert(home_candidates(home)[13] == CandidateView::SearchUnder(path_join(home, ".config"@)));
}

// ---------------------------------------------------------------------------
// Starting Discord
// ---------------------------------------------------------------------------
/// A program to run, with its arguments, that may start Discord.
#[derive(Debug, PartialEq, Eq)]
pub struct LaunchCommand {
    /// Program name, looked up on the search path.
    pub program: String,
    /// Arguments.
    pub args: Vec<String>,
}

/// The contents of a [`LaunchCommand`].
pub struct LaunchView {
    pub program: Seq<char>,
    pub args: Seq<Seq<char>>,
}

impl View for LaunchCommand {
    type V = LaunchView;

    open spec fn view(&self) -> LaunchView {
        LaunchView { program: self.program@, args: self.args@.map_values(|s: String| s@) }
    }
}

impl Clone for LaunchCommand {
    fn clone(&self) -> (res: Self)
        ensures
            res@ == self@,
    {
        let args = self.args.clone();
        assert(args@.map_values(|s: String| s@) =~= self.args@.map_values(|s: String| s@));
        LaunchCommand { program: self.program.clone(), args }
    }
}

/// The contents of a sequence of launch commands.
pub open spec fn launch_views(s: Seq<LaunchCommand>) -> Seq<LaunchView> {
    s.map_values(|c: LaunchCommand| c@)
}

/// A launch command with the given program and arguments.
pub open spec fn launch_view(program: Seq<char>, args: Seq<Seq<char>>) -> LaunchView {
    LaunchView { program, args }
}

/// The ways of starting Discord, tried in order: the `discord://` handler,
/// GIO, the client binaries of the stable, PTB and Canary channels, and
/// Flatpak; on macOS `open -a Discord` comes first.
pub open spec fn launch_plan(macos: bool) -> Seq<LaunchView> {
    let common = seq![
        launch_view("xdg-open"@, seq!["discord://"@]),
        launch_view("gio"@, seq!["launch"@, "discord"@]),
        launch_view("discord"@, seq![]),
        launch_view("Discord"@, seq![]),
        launch_view("discord-ptb"@, seq![]),
        launch_view("discord-canary"@, seq![]),
        launch_view("flatpak"@, seq!["run"@, "com.discordapp.Discord"@]),
    ];
    if macos {
        seq![launch_view("open"@, seq!["-a"@, "Discord"@])] + common
    } else {
        common
    }
}

fn launch(program: &str, args: Vec<String>) -> (c: LaunchCommand)
    ensures
        c@ == launch_view(program@, args@.map_values(|s: String| s@)),
{
    LaunchCommand { program: program.to_owned(), args }
}

fn one_arg(a: &str) -> (v: Vec<String>)
    ensures
        v@.map_values(|s: String| s@) == seq![a@],
{
    let mut v: Vec<String> = Vec::new();
    v.push(a.to_owned());
    assert(v@.map_values(|s: String| s@) =~= seq![a@]);
    v
}

fn two_args(a: &str, b: &str) -> (v: Vec<String>)
    ensures
        v@.map_values(|s: String| s@) == seq![a@, b@],
{
    let mut v: Vec<String> = Vec::new();
    v.push(a.to_owned());
    v.push(b.to_owned());
    assert(v@.map_values(|s: String| s@) =~= seq![a@, b@]);
    v
}

fn no_args() -> (v: Vec<String>)
    ensures
        v@.map_values(|s: String| s@) == Seq::<Seq<char>>::empty(),
{
    let v: Vec<String> = Vec::new();
    assert(v@.map_values(|s: String| s@) =~= Seq::<Seq<char>>::empty());
    v
}

fn push_launch(v: &mut Vec<LaunchCommand>, c: LaunchCommand)
    ensures
        launch_views(final(v)@) == launch_views(old(v)@).push(c@),
{
    let ghost before = v@;
    v.push(c);
    assert(launch_views(v@) =~= launch_views(before).push(c@));
}

/// The commands that may start Discord, in the order they are tried.
pub fn discord_launch_commands(macos: bool) -> (res: Vec<LaunchCommand>)
    ensures
        launch_views(res@) == launch_plan(macos),
{
    let mut v: Vec<LaunchCommand> = Vec::new();
    let ghost start = launch_views(v@);
    if macos {
        let a = two_args("-a", "Discord");
        push_launch(&mut v, launch("open", a));
    }
    let ghost before = launch_views(v@);
    let a = one_arg("discord://");
    push_launch(&mut v, launch("xdg-open", a));
    let a = two_args("launch", "discord");
    push_launch(&mut v, launch("gio", a));
    push_launch(&mut v, launch("discord", no_args()));
    push_launch(&mut v, launch("Discord", no_args()));
    push_launch(&mut v, launch("discord-ptb", no_args()));
    push_launch(&mut v, launch("discord-canary", no_args()));
    let a = two_args("run", "com.discordapp.Discord");
    push_launch(&mut v, launch("flatpak", a));
    assert(launch_views(v@) =~= launch_plan(macos));
    v
}

} // verus!
