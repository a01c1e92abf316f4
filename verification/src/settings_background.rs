//! The background modes the settings offer, and keeping the chosen one valid.
use vstd::prelude::*;

use crate::paths::{path_file_name, spec_path_file_name};

verus! {

/// A color as red, green and blue.
pub type Rgb = [u8; 3];

/// The theme colors the background palette starts from.
#[derive(Clone, Copy, Debug, PartialEq, Eq)]
pub struct ThemeColors {
    pub cursor: Rgb,
    pub selection: Rgb,
    pub foreground: Rgb,
}

/// The effect settings the background section reads and writes.
pub struct EffectsConfig {
    /// The selected background mode.
    pub background: String,
    /// The background image in use, if any.
    pub background_image: Option<String>,
    /// The colors a shader background is drawn with.
    pub background_color: Option<Rgb>,
    pub background_color2: Option<Rgb>,
    pub background_color3: Option<Rgb>,
}

/// The shaders built into the renderer, in the order the settings list them.
pub open spec fn builtin_shaders() -> Seq<Seq<char>> {
    seq!["smoke"@, "aurora"@]
}

/// The names of the shaders built into the renderer.
pub fn builtin_shader_names() -> (v: Vec<&'static str>)
    ensures
        v@.len() == 2,
        v@[0]@ == "smoke"@,
        v@[1]@ == "aurora"@,
{
    vec!["smoke", "aurora"]
}

/// The characters of each string.
pub open spec fn texts(v: Seq<String>) -> Seq<Seq<char>> {
    v.map_values(|s: String| s@)
}

/// `ms` with `name` appended unless it is already there.
pub open spec fn push_unique(ms: Seq<Seq<char>>, name: Seq<char>) -> Seq<Seq<char>> {
    if ms.contains(name) {
        ms
    } else {
        ms.push(name)
    }
}

/// `ms` with each of `names` appended in turn unless already there.
pub open spec fn push_all(ms: Seq<Seq<char>>, names: Seq<Seq<char>>) -> Seq<Seq<char>>
    decreases names.len(),
{
    if names.len() == 0 {
        ms
    } else {
        push_unique(push_all(ms, names.drop_last()), names.last())
    }
}

/// The modes offered: "none", the built-in shaders, the custom shaders,
/// then "image" when an image is in use or saved, each once.
pub open spec fn modes_spec(image_available: bool, custom: Seq<Seq<char>>) -> Seq<Seq<char>> {
    let base = push_all(push_all(seq!["none"@], builtin_shaders()), custom);
    if image_available {
        push_unique(base, "image"@)
    } else {
        base
    }
}

/// Appends `name` to `modes` unless one of them already is `name`.
pub fn push_mode(modes: &mut Vec<String>, name: &str)
    ensures
        texts(final(modes)@) == push_unique(texts(old(modes)@), name@),
{
    let owned = name.to_string();
    let mut i: usize = 0;
    while i < modes.len()
        invariant
            i <= modes.len(),
            owned@ == name@,
            forall|j: int| 0 <= j < i ==> (#[trigger] modes@[j])@ != name@,
        decreases modes.len() - i,
    {
        if modes[i] == owned {
            proof {
                assert(texts(modes@)[i as int] == name@);
            }
            return;
        }
        i += 1;
    }
    proof {
        assert forall|j: int| 0 <= j < texts(modes@).len() implies texts(modes@)[j] != name@ by {
            assert(texts(modes@)[j] == modes@[j]@);
        }
    }
    let ghost before = modes@;
    modes.push(owned);
    assert(texts(modes@) =~= texts(before).push(name@));
}

fn push_modes(modes: &mut Vec<String>, names: &Vec<String>)
    ensures
        texts(final(modes)@) == push_all(texts(old(modes)@), texts(names@)),
{
    let mut i: usize = 0;
    while i < names.len()
        invariant
            i <= names.len(),
            texts(modes@) == push_all(texts(old(modes)@), texts(names@.take(i as int))),
        decreases names.len() - i,
    {
        assert(texts(names@.take(i + 1)).drop_last() =~= texts(names@.take(i as int)));
        push_mode(modes, names[i].as_str());
        i += 1;
    }
    assert(names@.take(names.len() as int) =~= names@);
}

/// The background modes the settings offer.
pub fn available_background_modes_with_custom(
    effects: &EffectsConfig,
    saved_backgrounds: &[String],
    custom_shaders: Vec<String>,
) -> (modes: Vec<String>)
    ensures
        texts(modes@) == modes_spec(
            effects.background_image is Some || saved_backgrounds@.len() > 0,
            texts(custom_shaders@),
        ),
{
    let mut modes: Vec<String> = Vec::new();
    push_mode(&mut modes, "none");
    assert(texts(modes@) =~= seq!["none"@]);
    let builtins = builtin_shader_names();
    let mut builtin_strings: Vec<String> = Vec::new();
    builtin_strings.push(builtins[0].to_string());
    builtin_strings.push(builtins[1].to_string());
    assert(texts(builtin_strings@) =~= builtin_shaders());
    push_modes(&mut modes, &builtin_strings);
    push_modes(&mut modes, &custom_shaders);
    if effects.background_image.is_some() || saved_backgrounds.len() > 0 {
        push_mode(&mut modes, "image");
    }
    modes
}

/// Falls back to "none" when the selected mode is not offered.
pub fn normalize_background_mode(effects: &mut EffectsConfig, available_modes: &[String])
    ensures
        final(effects).background@ == normalized(texts(available_modes@), old(effects).background@),
        texts(available_modes@).contains(old(effects).background@) ==> final(effects).background
            == old(effects).background,
        final(effects).background_image == old(effects).background_image,
        final(effects).background_color == old(effects).background_color,
        final(effects).background_color2 == old(effects).background_color2,
        final(effects).background_color3 == old(effects).background_color3,
{
    let mut i: usize = 0;
    while i < available_modes.len()
        invariant
            i <= available_modes.len(),
            forall|j: int| 0 <= j < i ==> (#[trigger] available_modes@[j])@ != effects.background@,
        decreases available_modes.len() - i,
    {
        if available_modes[i] == effects.background {
            assert(texts(available_modes@)[i as int] == effects.background@);
            return;
        }
        i += 1;
    }
    proof {
        assert forall|j: int| 0 <= j < texts(available_modes@).len() implies texts(
            available_modes@,
        )[j] != effects.background@ by {
            assert(texts(available_modes@)[j] == available_modes@[j]@);
        }
    }
    effects.background = "none".to_string();
}

/// Whether a mode takes the custom background colors: every shader does,
/// "none" and "image" do not.
pub fn shader_supports_custom_color(name: &str) -> (b: bool)
    ensures
        b == (name@ != "none"@ && name@ != "image"@),
{
    let owned = name.to_string();
    let none = "none".to_string();
    let image = "image".to_string();
    owned != none && owned != image
}

/// How a saved background is referred to: its file name, else the path.
pub fn background_library_reference(path: &str) -> (r: String)
    ensures
        r@ == match spec_path_file_name(path@) {
            Some(n) => n,
            None => path@,
        },
{
    match path_file_name(path) {
        Some(n) => n,
        None => path.to_string(),
    }
}

/// Gives each unset background color its default from the theme: the
/// cursor, the selection and the foreground color.
pub fn ensure_background_palette(effects: &mut EffectsConfig, colors: &ThemeColors)
    ensures
        final(effects).background_color == Some(
            match old(effects).background_color {
                Some(c) => c,
                None => colors.cursor,
            },
        ),
        final(effects).background_color2 == Some(
            match old(effects).background_color2 {
                Some(c) => c,
                None => colors.selection,
            },
        ),
        final(effects).background_color3 == Some(
            match old(effects).background_color3 {
                Some(c) => c,
                None => colors.foreground,
            },
        ),
        final(effects).background == old(effects).background,
        final(effects).background_image == old(effects).background_image,
{
    if effects.background_color.is_none() {
        effects.background_color = Some(colors.cursor);
    }
    if effects.background_color2.is_none() {
        effects.background_color2 = Some(colors.selection);
    }
    if effects.background_color3.is_none() {
        effects.background_color3 = Some(colors.foreground);
    }
}

/// Whether a saved background `reference` stands for the file at `path`:
/// its resolved location (`resolved`, when it resolves) is that path, or
/// it has the same file name.
pub fn background_reference_matches_path(
    reference: Option<&str>,
    resolved: Option<&str>,
    path: &str,
) -> (b: bool)
    ensures
        b == (reference is Some && ((resolved matches Some(r) && r@ == path@) || spec_path_file_name(
            reference->0@,
        ) == spec_path_file_name(path@))),
{
    let reference = match reference {
        Some(r) => r,
        None => return false,
    };
    match resolved {
        Some(r) => {
            if r.to_string() == path.to_string() {
                return true;
            }
        },
        None => {},
    }
    let a = path_file_name(reference);
    let b = path_file_name(path);
    match (a, b) {
        (Some(x), Some(y)) => x == y,
        (None, None) => true,
        _ => false,
    }
}

/// Appending names one at a time keeps a list free of repeats.
pub proof fn law_push_all_no_duplicates(ms: Seq<Seq<char>>, names: Seq<Seq<char>>)
    requires
        ms.no_duplicates(),
    ensures
        push_all(ms, names).no_duplicates(),
        forall|k: int| 0 <= k < names.len() ==> push_all(ms, names).contains(#[trigger] names[k]),
        forall|k: int| 0 <= k < ms.len() ==> push_all(ms, names)[k] == #[trigger] ms[k],
        push_all(ms, names).len() >= ms.len(),
    decreases names.len(),
{
    if names.len() > 0 {
        let prev = push_all(ms, names.drop_last());
        law_push_all_no_duplicates(ms, names.drop_last());
        assert forall|k: int| 0 <= k < names.len() implies push_all(ms, names).contains(
            #[trigger] names[k],
        ) by {
            if k < names.len() - 1 {
                assert(names.drop_last()[k] == names[k]);
                let j = choose|j: int| 0 <= j < prev.len() && prev[j] == names[k];
                assert(push_all(ms, names)[j] == names[k]);
            } else if prev.contains(names.last()) {
            } else {
                assert(push_all(ms, names)[prev.len() as int] == names.last());
            }
        }
    }
}

/// The offered modes are all different, start with "none", and include
/// every built-in and custom shader.
pub proof fn law_modes_distinct(image_available: bool, custom: Seq<Seq<char>>)
    ensures
        modes_spec(image_available, custom).no_duplicates(),
        modes_spec(image_available, custom)[0] == "none"@,
        forall|k: int| 0 <= k < custom.len() ==> modes_spec(image_available, custom).contains(#[trigger] custom[k]),
        modes_spec(image_available, custom).contains("image"@) <== image_available,
{
    let none = seq!["none"@];
    law_push_all_no_duplicates(none, builtin_shaders());
    let b = push_all(none, builtin_shaders());
    law_push_all_no_duplicates(b, custom);
    let base = push_all(b, custom);
    assert(b[0] == none[0]);
    assert(base[0] == b[0]);
    let all = modes_spec(image_available, custom);
    assert(all[0] == base[0]);
    assert forall|k: int| 0 <= k < custom.len() implies all.contains(#[trigger] custom[k]) by {
        assert(base.contains(custom[k]));
        let j = choose|j: int| 0 <= j < base.len() && base[j] == custom[k];
        assert(all[j] == base[j]);
    }
    if image_available && !base.contains("image"@) {
        assert(all[base.len() as int] == "image"@);
    }
}

/// The mode selected after normalizing against the offered modes.
pub open spec fn normalized(available: Seq<Seq<char>>, selected: Seq<char>) -> Seq<char> {
    if available.contains(selected) {
        selected
    } else {
        "none"@
    }
}

/// Normalizing twice changes nothing more, and when "none" is offered (as
/// it always is among the modes the settings build) the result is offered.
pub proof fn law_normalize_mode_settles(available: Seq<Seq<char>>, selected: Seq<char>)
    ensures
        normalized(available, normalized(available, selected)) == normalized(available, selected),
        available.contains("none"@) ==> available.contains(normalized(available, selected)),
{
}

} // verus!
