//! Records the UI panels hand back to the application, the mouse tools, and
//! the decoding of preset thumbnails.

use vstd::prelude::*;
use crate::png_io::{png_decode_first_frame, png_decoded_frame};
use vstd::string::*;
use crate::text::chars_of;

verus! {

/// Actions requested by the main Particle Life panel.
pub struct UiResponse {
    pub respawn: bool,
    pub randomize: bool,
    /// Resize the world to match the current window dimensions.
    pub match_win: bool,
    /// Apply the currently selected preset to the simulation.
    pub apply_preset: bool,
    /// Open a file dialog to import a preset.
    pub import_preset: bool,
    /// Open a file dialog to export a preset.
    pub export_preset: bool,
    /// Toggle the preset gallery window.
    pub toggle_gallery: bool,
    /// The species palette was modified and should be pushed to the GPU.
    pub palette_changed: bool,
    /// Palette randomisation was requested.
    pub randomize_palette: bool,
    /// A share code was pasted and Apply clicked.
    pub apply_share_code: Option<String>,
    /// "Paste" was clicked in the share-code context menu.
    pub paste_share_code: bool,
    /// Theme or background colour changed.
    pub appearance_changed: bool,
    /// The pop-out / dock button of the attraction matrix was clicked.
    pub matrix_pop_out_toggled: bool,
}

impl Default for UiResponse {
    /// A response that requests nothing.
    fn default() -> (r: Self)
        ensures
            !r.respawn && !r.randomize && !r.match_win && !r.apply_preset && !r.import_preset
                && !r.export_preset && !r.toggle_gallery && !r.palette_changed
                && !r.randomize_palette && r.apply_share_code is None && !r.paste_share_code
                && !r.appearance_changed && !r.matrix_pop_out_toggled,
    {
        UiResponse {
            respawn: false,
            randomize: false,
            match_win: false,
            apply_preset: false,
            import_preset: false,
            export_preset: false,
            toggle_gallery: false,
            palette_changed: false,
            randomize_palette: false,
            apply_share_code: None,
            paste_share_code: false,
            appearance_changed: false,
            matrix_pop_out_toggled: false,
        }
    }
}

/// Actions requested by the Performance / benchmark panel.
pub struct BenchmarkPanelResponse {
    /// Start the full benchmark suite.
    pub start: bool,
    /// Export collected results to CSV.
    pub export_csv: bool,
    /// Start a quick single-point benchmark at the current particle count.
    pub start_quick: bool,
    /// Start the capacity binary-search benchmark.
    pub start_capacity: bool,
    /// Export capacity results to CSV.
    pub export_capacity_csv: bool,
    /// Cancel the running suite benchmark.
    pub cancel: bool,
    /// Cancel the running capacity benchmark.
    pub cancel_capacity: bool,
    /// `Some(v)` when the user toggled the global vsync checkbox.
    pub vsync: Option<bool>,
}

/// The active mouse tool selected in the toolbar.
#[derive(Clone, Copy, PartialEq, Eq, Structural, Debug)]
pub enum Tool {
    Pan,
    ZoomIn,
    ZoomOut,
    Attract,
    Repel,
    Spawn,
}

/// The mouse cursor shown over the world view.
#[derive(Clone, Copy, PartialEq, Eq, Structural, Debug)]
pub enum CursorShape {
    Grab,
    Grabbing,
    ZoomIn,
    ZoomOut,
    Crosshair,
}

/// The cursor for a tool: the pan tool shows an open hand, or a closed one
/// while a drag is under way; the zoom tools show their magnifiers; the
/// attract, repel and spawn tools show a crosshair.
pub open spec fn tool_cursor_spec(tool: Tool, panning: bool) -> CursorShape {
    match tool {
        Tool::Pan => if panning { CursorShape::Grabbing } else { CursorShape::Grab },
        Tool::ZoomIn => CursorShape::ZoomIn,
        Tool::ZoomOut => CursorShape::ZoomOut,
        Tool::Attract | Tool::Repel | Tool::Spawn => CursorShape::Crosshair,
    }
}

/// The cursor to show for the active tool.
pub fn tool_cursor(tool: Tool, panning: bool) -> (r: CursorShape)
    ensures
        r == tool_cursor_spec(tool, panning),
        (r == CursorShape::Grab || r == CursorShape::Grabbing) <==> tool == Tool::Pan,
        tool == Tool::Pan ==> (r == CursorShape::Grabbing <==> panning),
        tool != Tool::Pan ==> r == tool_cursor_spec(tool, !panning),
{
    match tool {
        Tool::Pan => if panning {
            CursorShape::Grabbing
        } else {
            CursorShape::Grab
        },
        Tool::ZoomIn => CursorShape::ZoomIn,
        Tool::ZoomOut => CursorShape::ZoomOut,
        Tool::Attract | Tool::Repel | Tool::Spawn => CursorShape::Crosshair,
    }
}

/// A pressed key, as the window's keyboard handler sees it.
pub enum KeyInput {
    Escape,
    F11,
    ArrowLeft,
    ArrowRight,
    ArrowUp,
    ArrowDown,
    Space,
    /// A key that produces text, with the text it produces.
    Character(String),
    Other,
}

/// What a key press asks the application to do.
#[derive(Clone, Copy, PartialEq, Eq, Structural, Debug)]
pub enum KeyCommand {
    /// Save the session and close the window.
    Quit,
    ToggleFullscreen,
    PanLeft,
    PanRight,
    PanUp,
    PanDown,
    /// Advance exactly one frame while paused.
    StepFrame,
    TogglePause,
    /// Zoom in (factor 1.5) about the viewport centre.
    ZoomIn,
    /// Zoom out (factor 1 / 1.5) about the viewport centre.
    ZoomOut,
    ResetView,
    Respawn,
    Screenshot,
    Nothing,
}

/// The command a text key gives: `=`/`+` zoom in, `-` zooms out, `0`
/// resets the view, `r` respawns, `s` takes a screenshot.
pub open spec fn character_command(text: Seq<char>) -> KeyCommand {
    if text == seq!['='] || text == seq!['+'] {
        KeyCommand::ZoomIn
    } else if text == seq!['-'] {
        KeyCommand::ZoomOut
    } else if text == seq!['0'] {
        KeyCommand::ResetView
    } else if text == seq!['r'] {
        KeyCommand::Respawn
    } else if text == seq!['s'] {
        KeyCommand::Screenshot
    } else {
        KeyCommand::Nothing
    }
}

/// The keyboard shortcut table.  Escape always quits; every other key is
/// ignored when the UI consumed it.  The right arrow steps one frame while
/// the simulation is paused and pans otherwise.
pub open spec fn key_command_spec(key: KeyInput, consumed: bool, paused: bool) -> KeyCommand {
    match key {
        KeyInput::Escape => KeyCommand::Quit,
        _ => if consumed {
            KeyCommand::Nothing
        } else {
            match key {
                KeyInput::F11 => KeyCommand::ToggleFullscreen,
                KeyInput::ArrowLeft => KeyCommand::PanLeft,
                KeyInput::ArrowRight => if paused {
                    KeyCommand::StepFrame
                } else {
                    KeyCommand::PanRight
                },
                KeyInput::ArrowUp => KeyCommand::PanUp,
                KeyInput::ArrowDown => KeyCommand::PanDown,
                KeyInput::Space => KeyCommand::TogglePause,
                KeyInput::Character(s) => character_command(s@),
                _ => KeyCommand::Nothing,
            }
        },
    }
}

/// Escape always quits; every other key that the UI consumed (a focused
/// text field, say) does nothing, whatever it is and whether or not the
/// simulation is paused.
pub proof fn lemma_consumed_keys_do_nothing(key: KeyInput, consumed: bool, paused: bool)
    ensures
        key is Escape ==> key_command_spec(key, consumed, paused) == KeyCommand::Quit,
        !(key is Escape) && consumed ==> key_command_spec(key, consumed, paused)
            == KeyCommand::Nothing,
        key_command_spec(key, consumed, paused) != KeyCommand::Nothing && !(key is Escape)
            ==> !consumed,
{
}

/// Map a key press to its command.
pub fn key_command(key: &KeyInput, consumed: bool, paused: bool) -> (r: KeyCommand)
    ensures
        r == key_command_spec(*key, consumed, paused),
        *key is Escape ==> r == KeyCommand::Quit,
        !(*key is Escape) && consumed ==> r == KeyCommand::Nothing,
{
    proof {
        lemma_consumed_keys_do_nothing(*key, consumed, paused);
    }
    if let KeyInput::Escape = key {
        return KeyCommand::Quit;
    }
    if consumed {
        return KeyCommand::Nothing;
    }
    match key {
        KeyInput::F11 => KeyCommand::ToggleFullscreen,
        KeyInput::ArrowLeft => KeyCommand::PanLeft,
        KeyInput::ArrowRight => if paused {
            KeyCommand::StepFrame
        } else {
            KeyCommand::PanRight
        },
        KeyInput::ArrowUp => KeyCommand::PanUp,
        KeyInput::ArrowDown => KeyCommand::PanDown,
        KeyInput::Space => KeyCommand::TogglePause,
        KeyInput::Character(s) => {
            let v = chars_of(s.as_str());
            if v.len() != 1 {
                proof {
                    assert(v@.len() != 1);
                    assert(v@ != seq!['=']);
                    assert(v@ != seq!['+']);
                    assert(v@ != seq!['-']);
                    assert(v@ != seq!['0']);
                    assert(v@ != seq!['r']);
                    assert(v@ != seq!['s']);
                }
                return KeyCommand::Nothing;
            }
            let c = v[0];
            proof {
                assert(v@ =~= seq![c]);
            }
            if c == '=' || c == '+' {
                KeyCommand::ZoomIn
            } else if c == '-' {
                KeyCommand::ZoomOut
            } else if c == '0' {
                KeyCommand::ResetView
            } else if c == 'r' {
                KeyCommand::Respawn
            } else if c == 's' {
                KeyCommand::Screenshot
            } else {
                proof {
                    assert(seq![c] != seq!['=']) by {
                        assert(seq![c][0] != seq!['='][0]);
                    }
                    assert(seq![c] != seq!['+']) by {
                        assert(seq![c][0] != seq!['+'][0]);
                    }
                    assert(seq![c] != seq!['-']) by {
                        assert(seq![c][0] != seq!['-'][0]);
                    }
                    assert(seq![c] != seq!['0']) by {
                        assert(seq![c][0] != seq!['0'][0]);
                    }
                    assert(seq![c] != seq!['r']) by {
                        assert(seq![c][0] != seq!['r'][0]);
                    }
                    assert(seq![c] != seq!['s']) by {
                        assert(seq![c][0] != seq!['s'][0]);
                    }
                }
                KeyCommand::Nothing
            }
        },
        _ => KeyCommand::Nothing,
    }
}

/// RGB samples widened to RGBA with an opaque alpha byte after every three.
pub open spec fn rgb_widened(px: Seq<u8>) -> Seq<u8> {
    Seq::new(
        (px.len() / 3) * 4,
        |k: int|
            if k % 4 == 3 {
                255u8
            } else {
                px[(k / 4) * 3 + k % 4]
            },
    )
}

/// Widen RGB samples to RGBA with alpha 255.
pub fn rgb_to_rgba(px: &Vec<u8>) -> (r: Vec<u8>)
    requires
        px@.len() % 3 == 0,
    ensures
        r@ == rgb_widened(px@),
        r@.len() == px@.len() / 3 * 4,
        forall|p: int|
            0 <= p < px@.len() / 3 ==> r@[4 * p] == px@[3 * p] && r@[4 * p + 1] == px@[3 * p + 1]
                && r@[4 * p + 2] == px@[3 * p + 2] && #[trigger] r@[4 * p + 3] == 255,
{
    let ghost target = rgb_widened(px@);
    let len = px.len();
    let n = len / 3;
    let mut r: Vec<u8> = Vec::new();
    let mut q: usize = 0;
    while q < n
        invariant
            n == px@.len() / 3,
            px@.len() % 3 == 0,
            q <= n,
            target == rgb_widened(px@),
            r@ == target.subrange(0, 4 * q as int),
        decreases n - q,
    {
        assert(3 * q + 2 < px.len()) by (nonlinear_arith)
            requires
                q < n,
                n == px.len() / 3,
        ;
        let base = 3 * q;
        r.push(px[base]);
        r.push(px[base + 1]);
        r.push(px[base + 2]);
        r.push(255u8);
        proof {
            let k = 4 * q as int;
            vstd::arithmetic::div_mod::lemma_fundamental_div_mod_converse(k, 4, q as int, 0);
            vstd::arithmetic::div_mod::lemma_fundamental_div_mod_converse(k + 1, 4, q as int, 1);
            vstd::arithmetic::div_mod::lemma_fundamental_div_mod_converse(k + 2, 4, q as int, 2);
            vstd::arithmetic::div_mod::lemma_fundamental_div_mod_converse(k + 3, 4, q as int, 3);
            assert(r@ =~= target.subrange(0, 4 * (q + 1) as int));
        }
        q = q + 1;
    }
    proof {
        assert(target.subrange(0, 4 * n as int) =~= target);
        assert forall|p: int| 0 <= p < px@.len() / 3 implies r@[4 * p] == px@[3 * p] && r@[4 * p + 1]
            == px@[3 * p + 1] && r@[4 * p + 2] == px@[3 * p + 2] && #[trigger] r@[4 * p + 3] == 255 by {
            vstd::arithmetic::div_mod::lemma_fundamental_div_mod_converse(4 * p, 4, p, 0);
            vstd::arithmetic::div_mod::lemma_fundamental_div_mod_converse(4 * p + 1, 4, p, 1);
            vstd::arithmetic::div_mod::lemma_fundamental_div_mod_converse(4 * p + 2, 4, p, 2);
            vstd::arithmetic::div_mod::lemma_fundamental_div_mod_converse(4 * p + 3, 4, p, 3);
        }
    }
    r
}

/// What [`decode_png_rgba`] gives for a file: width, height and RGBA
/// samples for RGB and RGBA images, `None` for other colour types and for
/// files that do not decode.
pub open spec fn png_rgba_image(bytes: Seq<u8>) -> Option<(usize, usize, Seq<u8>)> {
    match png_decoded_frame(bytes) {
        None => None,
        Some(f) => if f.2 == 2 {
            Some((f.0 as usize, f.1 as usize, rgb_widened(f.3)))
        } else if f.2 == 6 {
            Some((f.0 as usize, f.1 as usize, f.3))
        } else {
            None
        },
    }
}

/// Decode a PNG thumbnail to `(width, height, rgba)`; RGB images get an
/// opaque alpha channel, other colour types are rejected.
pub fn decode_png_rgba(bytes: &[u8]) -> (r: Option<(usize, usize, Vec<u8>)>)
    ensures
        match png_rgba_image(bytes@) {
            None => r is None,
            Some(img) => r matches Some(x) && x.0 == img.0 && x.1 == img.1 && x.2@ == img.2,
        },
{
    let (w, h, color, pixels) = match png_decode_first_frame(bytes) {
        Some(f) => f,
        None => return None,
    };
    let rgba = if color == 2 {
        rgb_to_rgba(&pixels)
    } else if color == 6 {
        pixels
    } else {
        return None;
    };
    Some((w as usize, h as usize, rgba))
}

/// Name for what `str::to_lowercase` gives for a text: its Unicode
/// lower-case form.
pub uninterp spec fn str_lowercase(s: Seq<char>) -> Seq<char>;

/// Calls `str::to_lowercase`.  The contract names the result as the
/// lower-case form of the argument and claims nothing more of it.
#[verifier::external_body]
fn lowercase(s: &str) -> (r: String)
    ensures
        r@ == str_lowercase(s@),
{
    s.to_lowercase()
}

/// `s` with every space replaced by a hyphen.
pub open spec fn spaces_dashed(s: Seq<char>) -> Seq<char> {
    Seq::new(s.len(), |i: int| if s[i] == ' ' { '-' } else { s[i] })
}

/// The file-name slug of a preset's thumbnail: the lower-cased name with
/// spaces turned into hyphens.
pub open spec fn preset_slug_spec(name: Seq<char>) -> Seq<char> {
    spaces_dashed(str_lowercase(name))
}

/// Replace every space of `s` by a hyphen.
fn dash_spaces(s: &str) -> (r: String)
    ensures
        r@ == spaces_dashed(s@),
{
    let n = s.unicode_len();
    let mut out = String::from_str("");
    proof {
        reveal_strlit("");
        reveal_strlit("-");
    }
    let mut i: usize = 0;
    while i < n
        invariant
            n == s@.len(),
            i <= n,
            out@ == spaces_dashed(s@.subrange(0, i as int)),
            "-"@ == seq!['-'],
        decreases n - i,
    {
        let c = s.get_char(i);
        if c == ' ' {
            out.append("-");
        } else {
            out.append(s.substring_char(i, i + 1));
        }
        proof {
            assert(out@ =~= spaces_dashed(s@.subrange(0, i + 1)));
        }
        i = i + 1;
    }
    proof {
        assert(s@.subrange(0, n as int) =~= s@);
    }
    out
}

/// The thumbnail slug of a preset name (`"My Preset"` gives `"my-preset"`).
pub fn preset_slug(name: &str) -> (r: String)
    ensures
        r@ == preset_slug_spec(name@),
{
    let lower = lowercase(name);
    dash_spaces(lower.as_str())
}

/// The files searched, in order, for a preset's thumbnail: the built-in
/// image named by its slug, then the bundled and the user preset images
/// named by the preset's name itself.
pub fn thumbnail_paths(name: &str) -> (r: Vec<String>)
    ensures
        r@.len() == 3,
        r@[0]@ == "assets/images/preset-"@ + preset_slug_spec(name@) + ".png"@,
        r@[1]@ == "assets/presets/"@ + name@ + ".png"@,
        r@[2]@ == "presets/"@ + name@ + ".png"@,
{
    let slug = preset_slug(name);
    let mut builtin = String::from_str("assets/images/preset-");
    builtin.append(slug.as_str());
    builtin.append(".png");
    let mut bundled = String::from_str("assets/presets/");
    bundled.append(name);
    bundled.append(".png");
    let mut user = String::from_str("presets/");
    user.append(name);
    user.append(".png");
    let mut r: Vec<String> = Vec::new();
    r.push(builtin);
    r.push(bundled);
    r.push(user);
    r
}

} // verus!
