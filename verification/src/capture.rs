//! Per-display frame production: pixel-format conversion and frame-rate
//! pacing for the capture loop.

use vstd::prelude::*;

use crate::supervisor::StartupError;

verus! {

/// Normalized record of one physical display's geometry and identity.
/// `index` is the display's ordinal position in the enumerated,
/// position-sorted list; `x`/`y` are signed desktop coordinates of its
/// origin.
#[derive(Clone, Debug)]
pub struct DisplayMetadata {
    pub index: usize,
    pub x: i32,
    pub y: i32,
    pub width: u32,
    pub height: u32,
    pub is_primary: bool,
    pub name: String,
}

/// One display as the low-level capture subsystem reports it: dimensions
/// only, no position.
#[derive(Clone, Copy, PartialEq, Eq, Structural, Debug)]
pub struct CaptureSize {
    pub width: u32,
    pub height: u32,
}

/// One display as the desktop display-info subsystem reports it: position
/// and primary flag besides the dimensions. Its ordering need not match the
/// capture subsystem's.
#[derive(Clone, Copy, PartialEq, Eq, Structural, Debug)]
pub struct DisplayInfoRecord {
    pub x: i32,
    pub y: i32,
    pub width: u32,
    pub height: u32,
    pub is_primary: bool,
}

/// Why display enumeration failed: no display attached, or one of the two
/// underlying subsystem queries errored.
#[derive(Clone, Copy, PartialEq, Eq, Structural, Debug)]
pub enum EnumerationError {
    NoDisplays,
    QueryFailed,
}

/// The part of a descriptor that identifies a display irrespective of its
/// final position in the sorted list: everything but `index`.
#[verifier::ext_equal]
pub struct DisplayModel {
    pub x: int,
    pub y: int,
    pub width: int,
    pub height: int,
    pub is_primary: bool,
    pub name: Seq<char>,
}

/// The identifying content of one descriptor.
pub open spec fn model_of(d: DisplayMetadata) -> DisplayModel {
    DisplayModel {
        x: d.x as int,
        y: d.y as int,
        width: d.width as int,
        height: d.height as int,
        is_primary: d.is_primary,
        name: d.name@,
    }
}

/// The identifying content of a whole descriptor list.
pub open spec fn models_of(s: Seq<DisplayMetadata>) -> Seq<DisplayModel> {
    s.map_values(|d: DisplayMetadata| model_of(d))
}

/// The decimal digit `d` as a character.
pub open spec fn digit_char(d: int) -> char {
    if d == 0 {
        '0'
    } else if d == 1 {
        '1'
    } else if d == 2 {
        '2'
    } else if d == 3 {
        '3'
    } else if d == 4 {
        '4'
    } else if d == 5 {
        '5'
    } else if d == 6 {
        '6'
    } else if d == 7 {
        '7'
    } else if d == 8 {
        '8'
    } else {
        '9'
    }
}

/// The decimal digits of `n`, most significant first.
pub open spec fn decimal_digits(n: nat) -> Seq<char>
    decreases n,
{
    if n < 10 {
        seq![digit_char(n as int)]
    } else {
        decimal_digits(n / 10).push(digit_char((n % 10) as int))
    }
}

/// The display string given to the display at enumeration position `n`.
pub open spec fn spec_display_name(n: nat) -> Seq<char> {
    "Display "@ + decimal_digits(n)
}

/// The descriptor content produced for enumeration position `i` when the
/// capture entry was matched with a display-info record.
pub open spec fn model_from_info(i: int, size: CaptureSize, info: DisplayInfoRecord) -> DisplayModel {
    DisplayModel {
        x: info.x as int,
        y: info.y as int,
        width: size.width as int,
        height: size.height as int,
        is_primary: info.is_primary,
        name: spec_display_name(i as nat),
    }
}

/// The descriptor content produced for enumeration position `i` when no
/// display-info record matched: origin defaults to (0, 0) and only the
/// first display counts as primary.
pub open spec fn model_fallback(i: int, size: CaptureSize) -> DisplayModel {
    DisplayModel {
        x: 0,
        y: 0,
        width: size.width as int,
        height: size.height as int,
        is_primary: i == 0,
        name: spec_display_name(i as nat),
    }
}

/// The first display-info record at or after position `j` that is not yet
/// used and has exactly the given dimensions.
pub open spec fn first_match_from(
    infos: Seq<DisplayInfoRecord>,
    used: Seq<bool>,
    w: u32,
    h: u32,
    j: int,
) -> Option<int>
    decreases infos.len() - j,
{
    if j < 0 || j >= infos.len() {
        None
    } else if !used[j] && infos[j].width == w && infos[j].height == h {
        Some(j)
    } else {
        first_match_from(infos, used, w, h, j + 1)
    }
}

/// Reconciliation of the two enumeration sources, from capture entry `i`
/// on: each capture entry takes the first not-yet-used display-info record
/// with identical dimensions (the first unmatched candidate wins on ties),
/// or the fallback when none matches. The result is in capture-subsystem
/// order, before sorting.
pub open spec fn spec_reconcile(
    sizes: Seq<CaptureSize>,
    infos: Seq<DisplayInfoRecord>,
    i: int,
    used: Seq<bool>,
) -> Seq<DisplayModel>
    decreases sizes.len() - i,
{
    if i < 0 || i >= sizes.len() {
        Seq::empty()
    } else {
        match first_match_from(infos, used, sizes[i].width, sizes[i].height, 0) {
            Some(j) => seq![model_from_info(i, sizes[i], infos[j])] + spec_reconcile(
                sizes,
                infos,
                i + 1,
                used.update(j, true),
            ),
            None => seq![model_fallback(i, sizes[i])] + spec_reconcile(sizes, infos, i + 1, used),
        }
    }
}

/// Lexicographic order on display origins: the order the final descriptor
/// list is sorted in.
pub open spec fn pos_le(a: DisplayMetadata, b: DisplayMetadata) -> bool {
    a.x < b.x || (a.x == b.x && a.y <= b.y)
}

/// The ordering invariant of an enumerated descriptor list: origins are
/// non-decreasing, `(origin_x, origin_y)` ascending, across ascending
/// positions.
pub open spec fn sorted_by_position(s: Seq<DisplayMetadata>) -> bool {
    forall|k1: int, k2: int| 0 <= k1 <= k2 < s.len() ==> pos_le(s[k1], s[k2])
}

/// Number of whole source pixels available for conversion: the lesser of the
/// requested pixel count and the number of complete 4-byte pixels in the
/// source buffer.
pub open spec fn whole_pixels(src: Seq<u8>, pixels: nat) -> nat {
    if pixels <= src.len() / 4 {
        pixels
    } else {
        src.len() / 4
    }
}

/// The 3-byte-per-pixel image obtained by dropping the fourth (alpha) byte of
/// each 4-byte source pixel, for as many whole pixels as are available.
pub open spec fn bgr_of(src: Seq<u8>, pixels: nat) -> Seq<u8> {
    Seq::new(3 * whole_pixels(src, pixels), |i: int| src[4 * (i / 3) + i % 3])
}

/// Strip the alpha channel from a captured frame: each 4-byte pixel in
/// blue-green-red-alpha order becomes the 3 bytes blue, green, red. A source
/// buffer shorter than `width * height * 4` bytes yields a short output
/// covering only the whole pixels present; the conversion never fails.
pub fn convert_bgra_to_bgr(bgra: &[u8], width: u32, height: u32) -> (bgr: Vec<u8>)
    ensures
        bgr@ == bgr_of(bgra@, (width as nat) * (height as nat)),
{
    let len: usize = bgra.len();
    let avail: usize = len / 4;
    proof {
        assert((width as nat) * (height as nat) < 0x1_0000_0000_0000_0000) by (nonlinear_arith)
            requires
                width < 0x1_0000_0000,
                height < 0x1_0000_0000,
        ;
    }
    let pixels: u64 = (width as u64) * (height as u64);
    let n: usize = if pixels < (avail as u64) {
        pixels as usize
    } else {
        avail
    };
    proof {
        assert(n == whole_pixels(bgra@, (width as nat) * (height as nat)));
        assert(4 * avail <= len);
    }
    let mut bgr: Vec<u8> = Vec::new();
    let mut i: usize = 0;
    while i < n
        invariant
            i <= n,
            len == bgra@.len(),
            n == whole_pixels(bgra@, (width as nat) * (height as nat)),
            4 * n <= len,
            bgr@.len() == 3 * i,
            forall|k: int| 0 <= k < 3 * i ==> bgr@[k] == bgra@[4 * (k / 3) + k % 3],
        decreases n - i,
    {
        bgr.push(bgra[4 * i]);
        bgr.push(bgra[4 * i + 1]);
        bgr.push(bgra[4 * i + 2]);
        i += 1;
    }
    proof {
        assert(bgr@ =~= bgr_of(bgra@, (width as nat) * (height as nat)));
    }
    bgr
}

/// Target time between consecutive iteration starts, in microseconds, for a
/// given frame rate in frames per second.
pub open spec fn spec_frame_interval(frame_rate: u32) -> u64
    recommends
        frame_rate >= 1,
{
    1_000_000u64 / (frame_rate as u64)
}

/// Compute the target frame interval (microseconds) from a frame rate.
pub fn frame_delay_micros(frame_rate: u32) -> (r: u64)
    requires
        frame_rate >= 1,
    ensures
        r == spec_frame_interval(frame_rate),
{
    1_000_000u64 / (frame_rate as u64)
}

/// Time to sleep at the end of an iteration that took `elapsed` microseconds
/// against a budget of `interval` microseconds: the remainder of the budget,
/// or nothing once the budget is already spent.
pub open spec fn spec_pacing_sleep(elapsed: u64, interval: u64) -> u64 {
    if elapsed < interval {
        (interval - elapsed) as u64
    } else {
        0u64
    }
}

/// Compute the end-of-iteration sleep that paces the loop to its target rate.
pub fn pacing_sleep_micros(elapsed_micros: u64, frame_interval_micros: u64) -> (r: u64)
    ensures
        r == spec_pacing_sleep(elapsed_micros, frame_interval_micros),
{
    if elapsed_micros < frame_interval_micros {
        frame_interval_micros - elapsed_micros
    } else {
        0
    }
}

/// Lifecycle of one display's capture loop. A loop advances only forward:
/// once `Stopping` or `Failed` is entered it can only reach `Exited`, and
/// `Exited` is final.
#[derive(Clone, Copy, PartialEq, Eq, Structural, Debug)]
pub enum LoopState {
    Starting,
    Running,
    Stopping,
    Failed,
    Exited,
}

/// How one frame acquisition went wrong: `Transient` ("not ready yet") is
/// retried after a short backoff; `Fatal` ends the owning loop.
#[derive(Clone, Copy, PartialEq, Eq, Structural, Debug)]
pub enum CaptureError {
    Transient,
    Fatal,
}

/// The outcome of one frame-acquisition attempt, as handed to the loop by
/// the capture subsystem.
pub enum CaptureEvent {
    Acquired(Vec<u8>),
    Failed(CaptureError),
}

/// What the capture loop asks its driver to do after observing one event.
pub enum IterationAction {
    /// Push this converted frame to the sink, then apply the pacing sleep.
    Deliver(Vec<u8>),
    /// Sleep the fixed backoff and retry; the frame was not ready or empty.
    Backoff,
    /// The loop is over: shutdown was observed or a fatal error occurred.
    Halt,
}

/// Fixed backoff before retrying a transient acquisition failure, in
/// microseconds.
pub const BACKOFF_MICROS: u64 = 5000;

/// Whether an event ends the loop abnormally.
pub open spec fn event_is_fatal(event: CaptureEvent) -> bool {
    event matches CaptureEvent::Failed(CaptureError::Fatal)
}

/// Whether an event is retried in place: a transient failure or an empty
/// frame buffer.
pub open spec fn event_is_transient(event: CaptureEvent) -> bool {
    ||| event matches CaptureEvent::Failed(CaptureError::Transient)
    ||| (event matches CaptureEvent::Acquired(data) && data@.len() == 0)
}

/// The loop's state transition for one observation: a running loop first
/// honours the shutdown signal, then reacts to the capture event; a loop
/// that is winding down reaches `Exited` and stays there.
pub open spec fn next_state(s: LoopState, shutdown: bool, event: CaptureEvent) -> LoopState {
    match s {
        LoopState::Starting => LoopState::Starting,
        LoopState::Running => if shutdown {
            LoopState::Stopping
        } else if event_is_fatal(event) {
            LoopState::Failed
        } else {
            LoopState::Running
        },
        LoopState::Stopping => LoopState::Exited,
        LoopState::Failed => LoopState::Exited,
        LoopState::Exited => LoopState::Exited,
    }
}

/// Shutdown convergence: once the shared shutdown signal is set, a running
/// loop leaves `Running` at its very next observation and reaches `Exited`
/// one step later; `Exited` is absorbing, so no loop ever restarts; and no
/// state past `Running` can transition back to `Running`.
pub proof fn lemma_shutdown_convergence(
    s: LoopState,
    shutdown: bool,
    e1: CaptureEvent,
    e2: CaptureEvent,
)
    ensures
        next_state(LoopState::Running, true, e1) == LoopState::Stopping,
        next_state(next_state(LoopState::Running, true, e1), true, e2) == LoopState::Exited,
        next_state(LoopState::Exited, shutdown, e1) == LoopState::Exited,
        s != LoopState::Running && s != LoopState::Starting ==> next_state(
            s,
            shutdown,
            e1,
        ) != LoopState::Running,
{
}

/// Pacing law: when one iteration's work finishes under the frame-interval
/// budget, the pacing sleep extends the iteration to exactly the budget, so
/// consecutive iteration starts are at least one frame interval apart; when
/// the work meets or exceeds the budget, no sleep is added and the next
/// iteration starts immediately.
pub proof fn lemma_pacing_floor(elapsed: u64, interval: u64)
    ensures
        elapsed < interval ==> elapsed + spec_pacing_sleep(elapsed, interval) == interval,
        elapsed >= interval ==> spec_pacing_sleep(elapsed, interval) == 0,
{
}

/// One decimal digit as a string slice.
fn digit_str(d: usize) -> (s: &'static str)
    requires
        d < 10,
    ensures
        s@ == seq![digit_char(d as int)],
{
    let s: &'static str = if d == 0 {
        "0"
    } else if d == 1 {
        "1"
    } else if d == 2 {
        "2"
    } else if d == 3 {
        "3"
    } else if d == 4 {
        "4"
    } else if d == 5 {
        "5"
    } else if d == 6 {
        "6"
    } else if d == 7 {
        "7"
    } else if d == 8 {
        "8"
    } else {
        "9"
    };
    proof {
        reveal_strlit("0");
        reveal_strlit("1");
        reveal_strlit("2");
        reveal_strlit("3");
        reveal_strlit("4");
        reveal_strlit("5");
        reveal_strlit("6");
        reveal_strlit("7");
        reveal_strlit("8");
        reveal_strlit("9");
        assert(s@ =~= seq![digit_char(d as int)]);
    }
    s
}

/// Append the decimal digits of `n` to `s`.
fn append_decimal(s: &mut String, n: usize)
    ensures
        final(s)@ == old(s)@ + decimal_digits(n as nat),
    decreases n,
{
    if n < 10 {
        s.append(digit_str(n));
    } else {
        append_decimal(s, n / 10);
        s.append(digit_str(n % 10));
        proof {
            assert(old(s)@ + decimal_digits((n / 10) as nat) + seq![
                digit_char((n % 10) as int),
            ] =~= old(s)@ + decimal_digits(n as nat));
        }
    }
}

/// Build the display string for enumeration position `n`.
pub fn display_name(n: usize) -> (s: String)
    ensures
        s@ == spec_display_name(n as nat),
{
    let mut s = String::from_str("Display ");
    append_decimal(&mut s, n);
    s
}

/// A fresh all-false usage map over the display-info records.
fn make_used(n: usize) -> (u: Vec<bool>)
    ensures
        u@ == Seq::new(n as nat, |j: int| false),
{
    let mut u: Vec<bool> = Vec::new();
    let mut k: usize = 0;
    while k < n
        invariant
            k <= n,
            u@.len() == k,
            forall|j: int| 0 <= j < k ==> !u@[j],
        decreases n - k,
    {
        u.push(false);
        k += 1;
    }
    proof {
        assert(u@ =~= Seq::new(n as nat, |j: int| false));
    }
    u
}

/// Find the first unused display-info record with exactly the given
/// dimensions.
fn find_match(infos: &Vec<DisplayInfoRecord>, used: &Vec<bool>, w: u32, h: u32) -> (r: Option<
    usize,
>)
    requires
        used@.len() == infos@.len(),
    ensures
        match r {
            Some(j) => j < infos@.len() && first_match_from(infos@, used@, w, h, 0) == Some(
                j as int,
            ),
            None => first_match_from(infos@, used@, w, h, 0) is None,
        },
{
    let mut j: usize = 0;
    while j < infos.len()
        invariant
            j <= infos@.len(),
            used@.len() == infos@.len(),
            first_match_from(infos@, used@, w, h, 0) == first_match_from(
                infos@,
                used@,
                w,
                h,
                j as int,
            ),
        decreases infos@.len() - j,
    {
        if !used[j] && infos[j].width == w && infos[j].height == h {
            return Some(j);
        }
        j += 1;
    }
    None
}

/// Reconcile the two enumeration sources into descriptors in
/// capture-subsystem order, `index` still equal to that order.
fn reconcile(sizes: &Vec<CaptureSize>, infos: &Vec<DisplayInfoRecord>) -> (list: Vec<
    DisplayMetadata,
>)
    ensures
        list@.len() == sizes@.len(),
        models_of(list@) == spec_reconcile(
            sizes@,
            infos@,
            0,
            Seq::new(infos@.len(), |j: int| false),
        ),
        forall|k: int| 0 <= k < list@.len() ==> #[trigger] list@[k].index == k,
{
    let ghost init_used = Seq::new(infos@.len(), |j: int| false);
    let mut used = make_used(infos.len());
    let mut list: Vec<DisplayMetadata> = Vec::new();
    let mut i: usize = 0;
    while i < sizes.len()
        invariant
            i <= sizes@.len(),
            list@.len() == i,
            used@.len() == infos@.len(),
            models_of(list@) + spec_reconcile(sizes@, infos@, i as int, used@) == spec_reconcile(
                sizes@,
                infos@,
                0,
                init_used,
            ),
            forall|k: int| 0 <= k < list@.len() ==> #[trigger] list@[k].index == k,
        decreases sizes@.len() - i,
    {
        let ghost used_before = used@;
        let ghost list_before = list@;
        let size = sizes[i];
        let name = display_name(i);
        let d: DisplayMetadata;
        match find_match(infos, &used, size.width, size.height) {
            Some(j) => {
                let info = infos[j];
                used[j] = true;
                d = DisplayMetadata {
                    index: i,
                    x: info.x,
                    y: info.y,
                    width: size.width,
                    height: size.height,
                    is_primary: info.is_primary,
                    name,
                };
                proof {
                    assert(model_of(d) =~= model_from_info(
                        i as int,
                        sizes@[i as int],
                        infos@[j as int],
                    ));
                    assert(used@ =~= used_before.update(j as int, true));
                }
            },
            None => {
                d = DisplayMetadata {
                    index: i,
                    x: 0,
                    y: 0,
                    width: size.width,
                    height: size.height,
                    is_primary: i == 0,
                    name,
                };
                proof {
                    assert(model_of(d) =~= model_fallback(i as int, sizes@[i as int]));
                }
            },
        }
        proof {
            assert(spec_reconcile(sizes@, infos@, i as int, used_before) == seq![model_of(d)]
                + spec_reconcile(sizes@, infos@, i + 1, used@));
        }
        list.push(d);
        proof {
            assert(models_of(list@) =~= models_of(list_before).push(model_of(d)));
            assert(models_of(list_before) + (seq![model_of(d)] + spec_reconcile(
                sizes@,
                infos@,
                i + 1,
                used@,
            )) =~= models_of(list@) + spec_reconcile(sizes@, infos@, i + 1, used@));
        }
        i += 1;
    }
    proof {
        assert(models_of(list@) + spec_reconcile(sizes@, infos@, sizes@.len() as int, used@)
            =~= models_of(list@));
    }
    list
}

/// Lexicographic comparison of two descriptors' origins.
fn pos_le_exec(a: &DisplayMetadata, b: &DisplayMetadata) -> (r: bool)
    ensures
        r == pos_le(*a, *b),
{
    a.x < b.x || (a.x == b.x && a.y <= b.y)
}

proof fn lemma_models_remove(s: Seq<DisplayMetadata>, i: int)
    requires
        0 <= i < s.len(),
    ensures
        models_of(s.remove(i)) == models_of(s).remove(i),
{
    assert(models_of(s.remove(i)) =~= models_of(s).remove(i));
}

proof fn lemma_models_insert(s: Seq<DisplayMetadata>, i: int, d: DisplayMetadata)
    requires
        0 <= i <= s.len(),
    ensures
        models_of(s.insert(i, d)) == models_of(s).insert(i, model_of(d)),
{
    assert(models_of(s.insert(i, d)) =~= models_of(s).insert(i, model_of(d)));
}

/// Sort a descriptor list by origin, `(origin_x, origin_y)` ascending. The
/// list's content is only permuted.
fn sort_by_position(v: &mut Vec<DisplayMetadata>)
    ensures
        final(v)@.len() == old(v)@.len(),
        sorted_by_position(final(v)@),
        models_of(final(v)@).to_multiset() == models_of(old(v)@).to_multiset(),
{
    broadcast use vstd::seq_lib::group_to_multiset_ensures;

    let mut i: usize = 1;
    while i < v.len()
        invariant
            1 <= i,
            v@.len() == old(v)@.len(),
            models_of(v@).to_multiset() == models_of(old(v)@).to_multiset(),
            forall|k1: int, k2: int|
                0 <= k1 <= k2 < i && k2 < v@.len() ==> pos_le(v@[k1], v@[k2]),
        decreases v@.len() - i,
    {
        let mut j: usize = i;
        while j > 0 && !pos_le_exec(&v[j - 1], &v[i])
            invariant
                j <= i < v@.len(),
                forall|m: int| j <= m < i ==> !pos_le(v@[m], v@[i as int]),
            decreases j,
        {
            j -= 1;
        }
        let ghost before = v@;
        let x = v.remove(i);
        let ghost mid = v@;
        v.insert(j, x);
        proof {
            lemma_models_remove(before, i as int);
            lemma_models_insert(mid, j as int, x);
            let me = model_of(x);
            assert(x == before[i as int]);
            assert(models_of(before)[i as int] == model_of(before[i as int]));
            assert(models_of(before).to_multiset().count(me) > 0) by {
                broadcast use vstd::seq_lib::group_to_multiset_ensures;

                assert(models_of(before).contains(me)) by {
                    assert(models_of(before)[i as int] == me);
                }
            }
            assert(models_of(mid) == models_of(before).remove(i as int));
            assert(models_of(v@) == models_of(mid).insert(j as int, me));
            vstd::seq_lib::to_multiset_insert(models_of(mid), j as int, me);
            vstd::seq_lib::to_multiset_remove(models_of(before), i as int);
            assert(models_of(before).to_multiset().remove(me).insert(me) =~= models_of(
                before,
            ).to_multiset());
            assert(models_of(v@).to_multiset() == models_of(before).to_multiset());
            assert(forall|k: int| 0 <= k < j ==> v@[k] == before[k]);
            assert(v@[j as int] == x);
            assert(forall|k: int| j < k <= i ==> v@[k] == before[k - 1]);
            assert forall|m: int| j <= m < i implies pos_le(x, before[m]) by {
                assert(!pos_le(before[m], x));
            }
            assert forall|k: int| 0 <= k < j implies pos_le(before[k], x) by {
                assert(pos_le(before[k], before[j - 1]));
                assert(pos_le(before[j - 1], x));
            }
            assert forall|k1: int, k2: int| 0 <= k1 <= k2 <= i implies pos_le(
                v@[k1],
                v@[k2],
            ) by {
                if k2 < j {
                    assert(pos_le(before[k1], before[k2]));
                } else if k2 == j {
                    if k1 < j {
                        assert(pos_le(before[k1], x));
                    }
                } else {
                    if k1 < j {
                        assert(pos_le(before[k1], before[k2 - 1]));
                    } else if k1 == j {
                        assert(pos_le(x, before[k2 - 1]));
                    } else {
                        assert(pos_le(before[k1 - 1], before[k2 - 1]));
                    }
                }
            }
        }
        i += 1;
    }
}

/// Re-assign each descriptor's `index` to its final position in the sorted
/// list; nothing else changes.
fn reindex(v: &mut Vec<DisplayMetadata>)
    ensures
        final(v)@.len() == old(v)@.len(),
        models_of(final(v)@) == models_of(old(v)@),
        forall|k: int| 0 <= k < final(v)@.len() ==> #[trigger] final(v)@[k].index == k,
{
    let mut k: usize = 0;
    while k < v.len()
        invariant
            k <= v@.len(),
            v@.len() == old(v)@.len(),
            models_of(v@) == models_of(old(v)@),
            forall|m: int| 0 <= m < k ==> #[trigger] v@[m].index == m,
        decreases v@.len() - k,
    {
        let ghost before = v@;
        let elem = &mut v[k];
        elem.index = k;
        proof {
            assert(models_of(v@) =~= models_of(before));
        }
        k += 1;
    }
}

/// Build the normalized, ordered display list from the two subsystem
/// queries: reconcile capture dimensions with display-info geometry (first
/// unmatched candidate wins on ties; unmatched entries default to origin
/// (0, 0) and primary only at position 0), sort by origin ascending, and
/// re-assign each descriptor's `index` to its final position. Fails exactly
/// when the capture subsystem reports no display.
pub fn build_display_list(sizes: &Vec<CaptureSize>, infos: &Vec<DisplayInfoRecord>) -> (r: Result<
    Vec<DisplayMetadata>,
    EnumerationError,
>)
    ensures
        r is Ok <==> sizes@.len() > 0,
        r matches Err(e) ==> e == EnumerationError::NoDisplays,
        r matches Ok(list) ==> {
            &&& list@.len() == sizes@.len()
            &&& forall|k: int| 0 <= k < list@.len() ==> #[trigger] list@[k].index == k
            &&& sorted_by_position(list@)
            &&& models_of(list@).to_multiset() == spec_reconcile(
                sizes@,
                infos@,
                0,
                Seq::new(infos@.len(), |j: int| false),
            ).to_multiset()
        },
{
    if sizes.len() == 0 {
        return Err(EnumerationError::NoDisplays);
    }
    let mut list = reconcile(sizes, infos);
    sort_by_position(&mut list);
    let ghost sorted_snapshot = list@;
    reindex(&mut list);
    proof {
        assert forall|k1: int, k2: int| 0 <= k1 <= k2 < list@.len() implies pos_le(
            list@[k1],
            list@[k2],
        ) by {
            assert(models_of(list@)[k1] == model_of(list@[k1]));
            assert(models_of(list@)[k2] == model_of(list@[k2]));
            assert(models_of(sorted_snapshot)[k1] == model_of(sorted_snapshot[k1]));
            assert(models_of(sorted_snapshot)[k2] == model_of(sorted_snapshot[k2]));
            assert(pos_le(sorted_snapshot[k1], sorted_snapshot[k2]));
        }
    }
    Ok(list)
}

/// Per-display runtime state of one capture loop: the display's geometry as
/// it stood when the session started, the target frame interval, and the
/// loop's lifecycle state. The capture handle itself is owned by the thread
/// that drives the session and never crosses it.
pub struct CaptureSession {
    pub display_index: usize,
    pub width: u32,
    pub height: u32,
    pub frame_interval_micros: u64,
    pub state: LoopState,
}

impl CaptureSession {
    /// Start a session for the display at `display_index` in the enumerated
    /// list. The display's geometry is captured once here and not re-queried
    /// for the session's lifetime. An index past the end of the list is a
    /// startup precondition failure, not retried.
    pub fn start(
        displays: &Vec<DisplayMetadata>,
        display_index: usize,
        frame_rate: u32,
    ) -> (r: Result<CaptureSession, StartupError>)
        requires
            frame_rate >= 1,
        ensures
            r is Ok <==> display_index < displays@.len(),
            r matches Ok(s) ==> {
                &&& s.display_index == display_index
                &&& s.width == displays@[display_index as int].width
                &&& s.height == displays@[display_index as int].height
                &&& s.frame_interval_micros == spec_frame_interval(frame_rate)
                &&& s.state == LoopState::Running
            },
            r matches Err(e) ==> e == StartupError::DisplayIndexOutOfRange,
    {
        if display_index >= displays.len() {
            return Err(StartupError::DisplayIndexOutOfRange);
        }
        let meta = &displays[display_index];
        Ok(CaptureSession {
            display_index,
            width: meta.width,
            height: meta.height,
            frame_interval_micros: frame_delay_micros(frame_rate),
            state: LoopState::Running,
        })
    }

    /// One observation of the running loop: honour the shutdown signal
    /// first, then react to the frame-acquisition event. A whole frame is
    /// converted and handed back for delivery; a transient failure or an
    /// empty frame asks for a backoff and retry; shutdown or a fatal error
    /// halts the loop. The session's geometry never changes.
    pub fn observe(&mut self, shutdown: bool, event: CaptureEvent) -> (a: IterationAction)
        requires
            old(self).state == LoopState::Running,
        ensures
            final(self).state == next_state(LoopState::Running, shutdown, event),
            final(self).display_index == old(self).display_index,
            final(self).width == old(self).width,
            final(self).height == old(self).height,
            final(self).frame_interval_micros == old(self).frame_interval_micros,
            shutdown ==> a is Halt,
            !shutdown && event_is_fatal(event) ==> a is Halt,
            !shutdown && event_is_transient(event) ==> a is Backoff,
            !shutdown && !event_is_fatal(event) && !event_is_transient(event) ==> {
                &&& event matches CaptureEvent::Acquired(data)
                &&& a matches IterationAction::Deliver(frame) && frame@ == bgr_of(
                    data@,
                    (old(self).width as nat) * (old(self).height as nat),
                )
            },
    {
        if shutdown {
            self.state = LoopState::Stopping;
            return IterationAction::Halt;
        }
        match event {
            CaptureEvent::Acquired(data) => {
                if data.len() == 0 {
                    IterationAction::Backoff
                } else {
                    IterationAction::Deliver(convert_bgra_to_bgr(
                        data.as_slice(),
                        self.width,
                        self.height,
                    ))
                }
            },
            CaptureEvent::Failed(CaptureError::Transient) => IterationAction::Backoff,
            CaptureEvent::Failed(CaptureError::Fatal) => {
                self.state = LoopState::Failed;
                IterationAction::Halt
            },
        }
    }

    /// Wind the loop down after `observe` asked for a halt: both the
    /// cooperative stop and the failure path end in `Exited`.
    pub fn finish(&mut self)
        requires
            old(self).state == LoopState::Stopping || old(self).state == LoopState::Failed,
        ensures
            final(self).state == LoopState::Exited,
            final(self).display_index == old(self).display_index,
            final(self).width == old(self).width,
            final(self).height == old(self).height,
            final(self).frame_interval_micros == old(self).frame_interval_micros,
    {
        self.state = LoopState::Exited;
    }
}

} // verus!
