//! Runtime configuration of the streamer: what to capture, at what rate,
//! and where the streams are advertised.

use vstd::prelude::*;

verus! {

/// Settings the streamer runs with. `displays` selects an explicit subset
/// of display indices to stream; empty means all displays.
#[derive(Clone, Debug)]
pub struct Config {
    /// Address to advertise in stream URLs (defaults to the local IP).
    pub server_address: String,
    /// Port the streaming server listens on.
    pub rtsp_port: u16,
    /// Frames per second to capture and stream.
    pub frame_rate: u32,
    /// Video quality, 0 to 10: higher is better quality, more bandwidth.
    pub quality: u32,
    /// Whether to capture the cursor.
    pub capture_cursor: bool,
    /// Display indices to capture; empty selects all displays.
    pub displays: Vec<usize>,
}

/// Relies on local_ip_address::local_ip: the machine's first non-loopback
/// IPv4 address, rendered through std's address formatting; `None` when the
/// lookup fails. The result depends on the machine's network interfaces, so
/// nothing more is promised of it.
#[verifier::external_body]
fn query_local_ip() -> Option<String> {
    match local_ip_address::local_ip() {
        Ok(ip) => Some(ip.to_string()),
        Err(_) => None,
    }
}

/// The address to advertise for a given lookup outcome: the queried address
/// itself when the lookup succeeded, the loopback address otherwise.
pub fn server_address_from(queried: Option<String>) -> (r: String)
    ensures
        queried matches Some(s) ==> r == s,
        queried is None ==> r@ == "127.0.0.1"@,
{
    match queried {
        Some(s) => s,
        None => String::from_str("127.0.0.1"),
    }
}

/// The local machine's IP address as a string, or the loopback address when
/// it cannot be determined. The result depends on the machine's network
/// interfaces, so no more can be said of it here.
pub fn local_ip_address() -> String {
    server_address_from(query_local_ip())
}

impl Default for Config {
    /// The settings a fresh configuration starts with; the advertised
    /// address defaults to the machine's own.
    fn default() -> (c: Config)
        ensures
            c.rtsp_port == 8554,
            c.frame_rate == 15,
            c.quality == 7,
            c.capture_cursor,
            c.displays@.len() == 0,
    {
        Config {
            server_address: local_ip_address(),
            rtsp_port: 8554,
            frame_rate: 15,
            quality: 7,
            capture_cursor: true,
            displays: Vec::new(),
        }
    }
}

} // verus!
