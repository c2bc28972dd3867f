//! The capture backend: building the encoder's command line for the
//! platform's capture device, judging a launch that died immediately, and
//! the bounded-grace stop policy.
//!
//! The subprocess itself lives with the caller; everything here is a pure
//! function from configuration and observed process state to arguments,
//! messages and decisions.

use vstd::prelude::*;

verus! {

use vstd::string::StringExecFns;
use crate::numfmt::{dec_str, dec_int_str, u64_to_dec, i64_to_dec};
use crate::redact::views_of;
use crate::textparse::{
    has_substring, find_substring, find_char, lemma_find_char_at, all_digits, digits_val,
    parse_digits_u64,
};
use vstd::string::StrSliceExecFns;

/// How long a stopping encoder is given before it is killed, and how long
/// between checks on it.
pub const ENCODER_GRACE_MS: u64 = 5000;

pub const ENCODER_POLL_MS: u64 = 100;

/// The capture device the encoder reads from, selected once per session by
/// platform capability.
#[derive(Clone, Copy, Debug, PartialEq, Eq, Structural)]
pub enum CaptureInput {
    /// The whole desktop through the Windows capture device.
    GdiGrab,
    /// The root window of the first display server screen.
    X11Grab,
    /// A numbered screen-capture device; `None` falls back to the common
    /// default.
    AvFoundation { device_index: Option<u32> },
    /// Raw frames piped in on standard input.
    RawStdin,
}

/// The capture format argument for each input.
pub open spec fn format_name(ci: CaptureInput) -> Seq<char> {
    match ci {
        CaptureInput::GdiGrab => "gdigrab"@,
        CaptureInput::X11Grab => "x11grab"@,
        CaptureInput::AvFoundation { .. } => "avfoundation"@,
        CaptureInput::RawStdin => "rawvideo"@,
    }
}

/// The device argument for each input.
pub open spec fn device_name(ci: CaptureInput) -> Seq<char> {
    match ci {
        CaptureInput::GdiGrab => "desktop"@,
        CaptureInput::X11Grab => ":0.0"@,
        CaptureInput::AvFoundation { device_index } => match device_index {
            Some(i) => dec_str(i as int) + ":"@,
            None => "1:"@,
        },
        CaptureInput::RawStdin => "-"@,
    }
}

/// Platform-specific options inserted between the input format and the
/// device.
pub open spec fn input_extras(ci: CaptureInput, x: int, y: int) -> Seq<Seq<char>> {
    match ci {
        CaptureInput::GdiGrab => seq![
            "-draw_mouse"@,
            "1"@,
            "-offset_x"@,
            dec_int_str(x),
            "-offset_y"@,
            dec_int_str(y),
            "-probesize"@,
            "10M"@,
            "-thread_queue_size"@,
            "1024"@,
        ],
        CaptureInput::AvFoundation { .. } => seq!["-capture_cursor"@, "1"@],
        _ => Seq::<Seq<char>>::empty(),
    }
}

/// The `WIDTHxHEIGHT` geometry argument.
pub open spec fn geometry_str(w: int, h: int) -> Seq<char> {
    dec_str(w) + "x"@ + dec_str(h)
}

/// The input half of the encoder command line.
pub open spec fn input_section(ci: CaptureInput, w: int, h: int, fps: int, x: int, y: int) -> Seq<
    Seq<char>,
> {
    match ci {
        CaptureInput::RawStdin => seq![
            "-f"@,
            "rawvideo"@,
            "-pixel_format"@,
            "rgb24"@,
            "-video_size"@,
            geometry_str(w, h),
            "-framerate"@,
            dec_str(fps),
            "-i"@,
            "-"@,
        ],
        _ => seq!["-f"@, format_name(ci), "-video_size"@, geometry_str(w, h), "-framerate"@, dec_str(fps)]
            + input_extras(ci, x, y) + seq!["-i"@, device_name(ci)],
    }
}

/// The output half of the encoder command line: one low-latency H.264
/// stream, overwriting the target file.
pub open spec fn output_section(out: Seq<char>) -> Seq<Seq<char>> {
    seq![
        "-c:v"@,
        "libx264"@,
        "-preset"@,
        "ultrafast"@,
        "-crf"@,
        "23"@,
        "-pix_fmt"@,
        "yuv420p"@,
        "-movflags"@,
        "+faststart"@,
        "-profile:v"@,
        "high"@,
        "-tune"@,
        "zerolatency"@,
        "-y"@,
        out,
    ]
}

/// The whole encoder command line.
pub open spec fn encoder_cmd(
    ci: CaptureInput,
    w: int,
    h: int,
    fps: int,
    x: int,
    y: int,
    out: Seq<char>,
) -> Seq<Seq<char>> {
    input_section(ci, w, h, fps, x, y) + output_section(out)
}

/// Configuration of one encoder-subprocess capture. The child process
/// itself is owned by the caller.
pub struct FFmpegRecorder {
    pub x: i32,
    pub y: i32,
    pub width: u32,
    pub height: u32,
    pub fps: u32,
    pub output_path: String,
    pub input: CaptureInput,
}

impl FFmpegRecorder {
    /// A recorder for the given region, rate, target file and capture
    /// input.
    pub fn new_with_input(
        x: i32,
        y: i32,
        width: u32,
        height: u32,
        fps: u32,
        output_path: String,
        input: CaptureInput,
    ) -> (r: FFmpegRecorder)
        ensures
            r.x == x,
            r.y == y,
            r.width == width,
            r.height == height,
            r.fps == fps,
            r.output_path == output_path,
            r.input == input,
    {
        FFmpegRecorder { x, y, width, height, fps, output_path, input }
    }

    /// The encoder's full argument list for this configuration.
    pub fn encoder_args(&self) -> (args: Vec<String>)
        ensures
            views_of(args@) == encoder_cmd(
                self.input,
                self.width as int,
                self.height as int,
                self.fps as int,
                self.x as int,
                self.y as int,
                self.output_path@,
            ),
    {
        let mut args: Vec<String> = Vec::new();
        let mut geometry = u64_to_dec(self.width as u64);
        geometry.append("x");
        let hs = u64_to_dec(self.height as u64);
        geometry.append(hs.as_str());
        proof {
            assert(geometry@ =~= geometry_str(self.width as int, self.height as int));
        }
        let fps = u64_to_dec(self.fps as u64);
        match self.input {
            CaptureInput::RawStdin => {
                args.push("-f".to_owned());
                args.push("rawvideo".to_owned());
                args.push("-pixel_format".to_owned());
                args.push("rgb24".to_owned());
                args.push("-video_size".to_owned());
                args.push(geometry);
                args.push("-framerate".to_owned());
                args.push(fps);
                args.push("-i".to_owned());
                args.push("-".to_owned());
            },
            CaptureInput::GdiGrab => {
                args.push("-f".to_owned());
                args.push("gdigrab".to_owned());
                args.push("-video_size".to_owned());
                args.push(geometry);
                args.push("-framerate".to_owned());
                args.push(fps);
                args.push("-draw_mouse".to_owned());
                args.push("1".to_owned());
                args.push("-offset_x".to_owned());
                args.push(i64_to_dec(self.x as i64));
                args.push("-offset_y".to_owned());
                args.push(i64_to_dec(self.y as i64));
                args.push("-probesize".to_owned());
                args.push("10M".to_owned());
                args.push("-thread_queue_size".to_owned());
                args.push("1024".to_owned());
                args.push("-i".to_owned());
                args.push("desktop".to_owned());
            },
            CaptureInput::X11Grab => {
                args.push("-f".to_owned());
                args.push("x11grab".to_owned());
                args.push("-video_size".to_owned());
                args.push(geometry);
                args.push("-framerate".to_owned());
                args.push(fps);
                args.push("-i".to_owned());
                args.push(":0.0".to_owned());
            },
            CaptureInput::AvFoundation { device_index } => {
                args.push("-f".to_owned());
                args.push("avfoundation".to_owned());
                args.push("-video_size".to_owned());
                args.push(geometry);
                args.push("-framerate".to_owned());
                args.push(fps);
                args.push("-capture_cursor".to_owned());
                args.push("1".to_owned());
                args.push("-i".to_owned());
                match device_index {
                    Option::Some(i) => {
                        let mut dev = u64_to_dec(i as u64);
                        dev.append(":");
                        args.push(dev);
                    },
                    Option::None => {
                        args.push("1:".to_owned());
                    },
                }
            },
        }
        args.push("-c:v".to_owned());
        args.push("libx264".to_owned());
        args.push("-preset".to_owned());
        args.push("ultrafast".to_owned());
        args.push("-crf".to_owned());
        args.push("23".to_owned());
        args.push("-pix_fmt".to_owned());
        args.push("yuv420p".to_owned());
        args.push("-movflags".to_owned());
        args.push("+faststart".to_owned());
        args.push("-profile:v".to_owned());
        args.push("high".to_owned());
        args.push("-tune".to_owned());
        args.push("zerolatency".to_owned());
        args.push("-y".to_owned());
        args.push(self.output_path.clone());
        proof {
            assert(views_of(args@) =~= encoder_cmd(
                self.input,
                self.width as int,
                self.height as int,
                self.fps as int,
                self.x as int,
                self.y as int,
                self.output_path@,
            ));
        }
        args
    }
}

/// The arguments of the screen-capture utility variant: video mode, cursor
/// captured, no sounds, straight to the target file.
pub fn native_utility_args(output_path: &str) -> (args: Vec<String>)
    ensures
        views_of(args@) =~= seq!["-v"@, "-C"@, "-x"@, output_path@],
{
    let mut args: Vec<String> = Vec::new();
    args.push("-v".to_owned());
    args.push("-C".to_owned());
    args.push("-x".to_owned());
    args.push(output_path.to_owned());
    args
}

/// The message surfaced when the encoder exits before its first health
/// check: the exit status, any captured error output, and on Windows a hint
/// for the two causes worth distinguishing.
pub open spec fn launch_failure_text(
    status: Seq<char>,
    stderr: Seq<char>,
    on_windows: bool,
) -> Seq<char> {
    let base = "FFmpeg process exited immediately with status: "@ + status;
    if stderr.len() == 0 {
        base
    } else {
        let with_output = base + "\nFFmpeg error output: "@ + stderr;
        if on_windows && has_substring(stderr, "Could not find video device"@) {
            with_output
                + "\nHint: On Windows, make sure you have permission to access screen recording."@
        } else if on_windows && has_substring(stderr, "Permission denied"@) {
            with_output + "\nHint: Try running the application as administrator."@
        } else {
            with_output
        }
    }
}

/// Build the launch-failure message from the observed exit status text and
/// captured error output.
pub fn describe_launch_failure(status: &str, stderr: &str, on_windows: bool) -> (r: String)
    ensures
        r@ == launch_failure_text(status@, stderr@, on_windows),
{
    let mut msg = String::new();
    msg.append("FFmpeg process exited immediately with status: ");
    msg.append(status);
    if stderr.unicode_len() == 0 {
        proof {
            assert(msg@ =~= launch_failure_text(status@, stderr@, on_windows));
        }
        return msg;
    }
    msg.append("\nFFmpeg error output: ");
    msg.append(stderr);
    if on_windows {
        let no_device = find_substring(stderr, "Could not find video device");
        if no_device.is_some() {
            msg.append(
                "\nHint: On Windows, make sure you have permission to access screen recording.",
            );
        } else {
            let denied = find_substring(stderr, "Permission denied");
            if denied.is_some() {
                msg.append("\nHint: Try running the application as administrator.");
            }
        }
    }
    proof {
        assert(msg@ =~= launch_failure_text(status@, stderr@, on_windows));
    }
    msg
}

/// What the stop sequence should do next while waiting out the grace
/// period.
#[derive(Clone, Copy, Debug, PartialEq, Eq, Structural)]
pub enum StopStep {
    /// The process exited by itself.
    Done,
    /// The grace period ran out: force-kill the process.
    Kill,
    /// Keep waiting and check again shortly.
    KeepWaiting,
}

/// The bounded-grace stop policy: wait for a graceful exit, and kill only
/// once the grace period has elapsed.
pub fn stop_grace_decision(exited: bool, elapsed_ms: u64) -> (r: StopStep)
    ensures
        exited ==> r is Done,
        !exited && elapsed_ms >= ENCODER_GRACE_MS ==> r is Kill,
        !exited && elapsed_ms < ENCODER_GRACE_MS ==> r is KeepWaiting,
{
    if exited {
        StopStep::Done
    } else if elapsed_ms >= ENCODER_GRACE_MS {
        StopStep::Kill
    } else {
        StopStep::KeepWaiting
    }
}

/// The screen-capture device index named by one line of the encoder's
/// device listing: the number in the second bracket pair of a line that
/// mentions a capture screen.
pub open spec fn line_device_index(l: Seq<char>) -> Option<int> {
    if !has_substring(l, "Capture screen"@) {
        None
    } else {
        let b1 = find_char(l, '[');
        if b1 >= l.len() {
            None
        } else {
            let rest1 = l.skip(b1 + 1);
            let b2 = find_char(rest1, '[');
            if b2 >= rest1.len() {
                None
            } else {
                let rest2 = rest1.skip(b2 + 1);
                let e = find_char(rest2, ']');
                if e >= rest2.len() {
                    None
                } else {
                    let num = rest2.take(e);
                    if 0 < num.len() <= 10 && all_digits(num) && digits_val(num) <= u32::MAX {
                        Some(digits_val(num))
                    } else {
                        None
                    }
                }
            }
        }
    }
}


/// Read the device index out of one line of the device listing.
pub fn device_index_from_line(line: &str) -> (r: Option<u32>)
    ensures
        match r {
            Some(v) => line_device_index(line@) == Some(v as int),
            None => line_device_index(line@) is None,
        },
{
    if find_substring(line, "Capture screen").is_none() {
        return None;
    }
    let n = line.unicode_len();
    let mut b1: usize = 0;
    while b1 < n && line.get_char(b1) != '['
        invariant
            0 <= b1 <= n == line@.len(),
            forall|j: int| 0 <= j < b1 ==> #[trigger] line@[j] != '[',
        decreases n - b1,
    {
        b1 += 1;
    }
    proof {
        lemma_find_char_at(line@, '[', b1 as int);
    }
    if b1 >= n {
        return None;
    }
    let rest1 = line.substring_char(b1 + 1, n);
    proof {
        assert(rest1@ =~= line@.skip(b1 as int + 1));
    }
    let n1 = rest1.unicode_len();
    let mut b2: usize = 0;
    while b2 < n1 && rest1.get_char(b2) != '['
        invariant
            0 <= b2 <= n1 == rest1@.len(),
            forall|j: int| 0 <= j < b2 ==> #[trigger] rest1@[j] != '[',
        decreases n1 - b2,
    {
        b2 += 1;
    }
    proof {
        lemma_find_char_at(rest1@, '[', b2 as int);
    }
    if b2 >= n1 {
        return None;
    }
    let rest2 = rest1.substring_char(b2 + 1, n1);
    proof {
        assert(rest2@ =~= rest1@.skip(b2 as int + 1));
    }
    let n2 = rest2.unicode_len();
    let mut e: usize = 0;
    while e < n2 && rest2.get_char(e) != ']'
        invariant
            0 <= e <= n2 == rest2@.len(),
            forall|j: int| 0 <= j < e ==> #[trigger] rest2@[j] != ']',
        decreases n2 - e,
    {
        e += 1;
    }
    proof {
        lemma_find_char_at(rest2@, ']', e as int);
    }
    if e >= n2 {
        return None;
    }
    let num = rest2.substring_char(0, e);
    proof {
        assert(num@ =~= rest2@.take(e as int));
    }
    match parse_digits_u64(num) {
        Option::Some(v) => {
            if v <= 0xffff_ffff {
                Some(v as u32)
            } else {
                None
            }
        },
        Option::None => None,
    }
}

/// The device index chosen from the whole listing: the first line that
/// names a capture screen with a readable index.
pub fn screen_device_index(lines: &Vec<String>) -> (r: Option<u32>)
    ensures
        match r {
            Some(v) => exists|i: int|
                0 <= i < lines@.len() && #[trigger] line_device_index(lines@[i]@) == Some(
                    v as int,
                ) && forall|j: int| 0 <= j < i ==> line_device_index(#[trigger] lines@[j]@) is None,
            None => forall|i: int|
                0 <= i < lines@.len() ==> line_device_index(#[trigger] lines@[i]@) is None,
        },
{
    let mut i: usize = 0;
    while i < lines.len()
        invariant
            0 <= i <= lines@.len(),
            forall|j: int| 0 <= j < i ==> line_device_index(#[trigger] lines@[j]@) is None,
        decreases lines@.len() - i,
    {
        match device_index_from_line(lines[i].as_str()) {
            Option::Some(v) => {
                proof {
                    assert(line_device_index(lines@[i as int]@) == Some(v as int));
                }
                return Some(v);
            },
            Option::None => {},
        }
        i += 1;
    }
    None
}

} // verus!
