//! What the console commands do with their arguments: each `run` decides
//! the outcome (a new setting, the arguments of a spawn, or the error to
//! report), and the application carries it out.
use vstd::prelude::*;

use crate::text::{
    char_is_numeric, chars_of, decimal, lemma_parse_decimal, is_numeric, join, joined, lowercase, owned, parse_u32, parse_unsigned,
    parse_usize, push_char, replace_escaped_newlines, str_eq, string_from_chars, to_lowercase,
    unescape_newlines, views,
};

verus! {

/// The shape of the brush.
#[derive(PartialEq, Eq, Structural, Clone, Copy, Debug)]
pub enum BrushTypeState {
    Circle,
    Line,
    Cursor,
}

/// What the brush spawns.
#[derive(PartialEq, Eq, Structural, Clone, Copy, Debug)]
pub enum BrushModeSpawnState {
    Particles,
    Conway,
}

/// The tool that acts on the canvas.
#[derive(PartialEq, Eq, Structural, Clone, Copy, Debug)]
pub enum CanvasState {
    Select,
    Brush,
}

/// How the select tool moves what it holds.
#[derive(PartialEq, Eq, Structural, Clone, Copy, Debug)]
pub enum SelectModeState {
    Drag,
    Throw,
}

/// How lines of spawned text are aligned.
#[derive(PartialEq, Eq, Structural, Clone, Copy, Debug)]
pub enum TextAlignment {
    Left,
    Center,
    Right,
}

/// The brush type that a lowercased argument names.
pub open spec fn brush_type_named(l: Seq<char>) -> Option<BrushTypeState> {
    if l == "circle"@ {
        Some(BrushTypeState::Circle)
    } else if l == "line"@ {
        Some(BrushTypeState::Line)
    } else if l == "cursor"@ {
        Some(BrushTypeState::Cursor)
    } else {
        None
    }
}

/// The brush mode that a lowercased argument names.
pub open spec fn brush_mode_named(l: Seq<char>) -> Option<BrushModeSpawnState> {
    if l == "particles"@ {
        Some(BrushModeSpawnState::Particles)
    } else if l == "conway"@ {
        Some(BrushModeSpawnState::Conway)
    } else {
        None
    }
}

/// The canvas state that a lowercased argument names.
pub open spec fn canvas_state_named(l: Seq<char>) -> Option<CanvasState> {
    if l == "select"@ {
        Some(CanvasState::Select)
    } else if l == "brush"@ {
        Some(CanvasState::Brush)
    } else {
        None
    }
}

/// The select mode that a lowercased argument names.
pub open spec fn select_mode_named(l: Seq<char>) -> Option<SelectModeState> {
    if l == "drag"@ {
        Some(SelectModeState::Drag)
    } else if l == "throw"@ {
        Some(SelectModeState::Throw)
    } else {
        None
    }
}

/// Each of the words `circle`, `line` and `cursor` names its own brush type,
/// `particles` and `conway` each name their own brush mode, `select` and
/// `brush` each name their own canvas state, and `drag` and `throw` each name
/// their own select mode; no other word names one.
pub proof fn law_state_words(l: Seq<char>)
    ensures
        (brush_type_named(l) == Some(BrushTypeState::Circle)) == (l == "circle"@),
        (brush_type_named(l) == Some(BrushTypeState::Line)) == (l == "line"@),
        (brush_type_named(l) == Some(BrushTypeState::Cursor)) == (l == "cursor"@),
        (brush_type_named(l) is None) == (l != "circle"@ && l != "line"@ && l != "cursor"@),
        (brush_mode_named(l) == Some(BrushModeSpawnState::Particles)) == (l == "particles"@),
        (brush_mode_named(l) == Some(BrushModeSpawnState::Conway)) == (l == "conway"@),
        (brush_mode_named(l) is None) == (l != "particles"@ && l != "conway"@),
        (canvas_state_named(l) == Some(CanvasState::Select)) == (l == "select"@),
        (canvas_state_named(l) == Some(CanvasState::Brush)) == (l == "brush"@),
        (canvas_state_named(l) is None) == (l != "select"@ && l != "brush"@),
        (select_mode_named(l) == Some(SelectModeState::Drag)) == (l == "drag"@),
        (select_mode_named(l) == Some(SelectModeState::Throw)) == (l == "throw"@),
        (select_mode_named(l) is None) == (l != "drag"@ && l != "throw"@),
{
    reveal_strlit("circle");
    reveal_strlit("line");
    reveal_strlit("cursor");
    reveal_strlit("particles");
    reveal_strlit("conway");
    reveal_strlit("select");
    reveal_strlit("brush");
    reveal_strlit("drag");
    reveal_strlit("throw");
    assert("circle"@.len() == 6 && "line"@.len() == 4 && "cursor"@.len() == 6);
    assert("circle"@[1] != "cursor"@[1]);
    assert("particles"@.len() == 9 && "conway"@.len() == 6);
    assert("select"@.len() == 6 && "brush"@.len() == 5);
    assert("drag"@.len() == 4 && "throw"@.len() == 5);
}

/// Why `brush set size` refused its arguments.
#[derive(PartialEq, Eq, Structural, Clone, Copy, Debug)]
pub enum BrushSizeError {
    /// No value was given.
    MissingValue,
    /// The value is not a whole number that fits a `usize`.
    InvalidValue,
    /// The value is zero.
    Zero,
}

/// Why `brush set mode` refused its arguments.
#[derive(PartialEq, Eq, Structural, Clone, Copy, Debug)]
pub enum BrushModeError {
    /// No value was given.
    MissingValue,
    /// The value names no mode.
    InvalidMode,
}

/// `brush set type <circle|line|cursor>`.
pub struct BrushSetTypeConsoleCommand;

impl BrushSetTypeConsoleCommand {
    /// The brush type to switch to, `None` when the argument names none
    /// (letter case does not matter).
    pub fn run(&self, args: &[String]) -> (res: Option<BrushTypeState>)
        requires
            args@.len() > 0,
        ensures
            res == brush_type_named(lowercase(args@[0]@)),
    {
        let l = to_lowercase(args[0].as_str());
        brush_type_from_lowercase(l.as_str())
    }
}

/// The brush type named by an already lowercased argument.
pub fn brush_type_from_lowercase(l: &str) -> (res: Option<BrushTypeState>)
    ensures
        res == brush_type_named(l@),
{
    if str_eq(l, "circle") {
        Some(BrushTypeState::Circle)
    } else if str_eq(l, "line") {
        Some(BrushTypeState::Line)
    } else if str_eq(l, "cursor") {
        Some(BrushTypeState::Cursor)
    } else {
        None
    }
}

/// `brush set size <value>`.
pub struct BrushSetSizeConsoleCommand;

impl BrushSetSizeConsoleCommand {
    /// The new brush size: the first argument read as a `usize`, which must
    /// not be zero.
    pub fn run(&self, args: &[String]) -> (res: Result<usize, BrushSizeError>)
        ensures
            args@.len() == 0 ==> res == Err::<usize, BrushSizeError>(BrushSizeError::MissingValue),
            args@.len() > 0 ==> match parse_unsigned(args@[0]@, usize::MAX as nat) {
                None => res == Err::<usize, BrushSizeError>(BrushSizeError::InvalidValue),
                Some(v) => if v == 0 {
                    res == Err::<usize, BrushSizeError>(BrushSizeError::Zero)
                } else {
                    res == Ok::<usize, BrushSizeError>(v as usize)
                },
            },
    {
        if args.len() == 0 {
            return Err(BrushSizeError::MissingValue);
        }
        match parse_usize(args[0].as_str()) {
            Some(size) => {
                if size == 0 {
                    Err(BrushSizeError::Zero)
                } else {
                    Ok(size)
                }
            },
            None => Err(BrushSizeError::InvalidValue),
        }
    }
}

/// `brush set mode <particles|conway>`.
pub struct BrushSetModeConsoleCommand;

impl BrushSetModeConsoleCommand {
    /// The brush mode to switch to (letter case does not matter).
    pub fn run(&self, args: &[String]) -> (res: Result<BrushModeSpawnState, BrushModeError>)
        ensures
            args@.len() == 0 ==> res == Err::<BrushModeSpawnState, BrushModeError>(
                BrushModeError::MissingValue,
            ),
            args@.len() > 0 ==> match brush_mode_named(lowercase(args@[0]@)) {
                Some(m) => res == Ok::<BrushModeSpawnState, BrushModeError>(m),
                None => res == Err::<BrushModeSpawnState, BrushModeError>(
                    BrushModeError::InvalidMode,
                ),
            },
    {
        if args.len() == 0 {
            return Err(BrushModeError::MissingValue);
        }
        let l = to_lowercase(args[0].as_str());
        match brush_mode_from_lowercase(l.as_str()) {
            Some(m) => Ok(m),
            None => Err(BrushModeError::InvalidMode),
        }
    }
}

/// The brush mode named by an already lowercased argument.
pub fn brush_mode_from_lowercase(l: &str) -> (res: Option<BrushModeSpawnState>)
    ensures
        res == brush_mode_named(l@),
{
    if str_eq(l, "particles") {
        Some(BrushModeSpawnState::Particles)
    } else if str_eq(l, "conway") {
        Some(BrushModeSpawnState::Conway)
    } else {
        None
    }
}

/// `canvas set state <select|brush>`.
pub struct CanvasSetModeCommand;

impl CanvasSetModeCommand {
    /// The canvas state to switch to (letter case does not matter).
    pub fn run(&self, args: &[String]) -> (res: Option<CanvasState>)
        requires
            args@.len() > 0,
        ensures
            res == canvas_state_named(lowercase(args@[0]@)),
    {
        let l = to_lowercase(args[0].as_str());
        canvas_state_from_lowercase(l.as_str())
    }
}

/// The canvas state named by an already lowercased argument.
pub fn canvas_state_from_lowercase(l: &str) -> (res: Option<CanvasState>)
    ensures
        res == canvas_state_named(l@),
{
    if str_eq(l, "select") {
        Some(CanvasState::Select)
    } else if str_eq(l, "brush") {
        Some(CanvasState::Brush)
    } else {
        None
    }
}

/// `select set mode <drag|throw>`.
pub struct SelectSetModeCommand;

impl SelectSetModeCommand {
    /// The select mode to switch to (letter case does not matter).
    pub fn run(&self, args: &[String]) -> (res: Option<SelectModeState>)
        requires
            args@.len() > 0,
        ensures
            res == select_mode_named(lowercase(args@[0]@)),
    {
        let l = to_lowercase(args[0].as_str());
        select_mode_from_lowercase(l.as_str())
    }
}

/// The select mode named by an already lowercased argument.
pub fn select_mode_from_lowercase(l: &str) -> (res: Option<SelectModeState>)
    ensures
        res == select_mode_named(l@),
{
    if str_eq(l, "drag") {
        Some(SelectModeState::Drag)
    } else if str_eq(l, "throw") {
        Some(SelectModeState::Throw)
    } else {
        None
    }
}

/// `particles despawn named <name...>`.
pub struct ParticlesDespawnNamedConsoleCommand;

impl ParticlesDespawnNamedConsoleCommand {
    /// The particle name to despawn: the arguments joined by single spaces.
    pub fn run(&self, args: &[String]) -> (res: String)
        ensures
            res@ == joined(views(args@), " "@),
    {
        join(args, " ")
    }
}

/// The depth used when a Sierpinski command gives none.
pub const DEFAULT_SIERPINSKI_DEPTH: u32 = 6;

/// The position arguments and depth of a Sierpinski command: when the last
/// argument reads as a `u32` it is the depth and the others give the
/// position; otherwise all arguments give the position and the depth is 6.
pub open spec fn sierpinski_split(args: Seq<Seq<char>>) -> (Seq<Seq<char>>, u32) {
    if args.len() > 0 && parse_unsigned(args.last(), u32::MAX as nat) is Some {
        (args.drop_last(), parse_unsigned(args.last(), u32::MAX as nat)->0 as u32)
    } else {
        (args, DEFAULT_SIERPINSKI_DEPTH)
    }
}

/// A Sierpinski command whose last argument is a depth written in decimal
/// spawns at that depth, at the position given by the arguments before it;
/// one whose last argument is no number spawns at depth 6, at the position
/// given by all its arguments.
pub proof fn law_sierpinski_depth(args: Seq<Seq<char>>, depth: u32)
    ensures
        sierpinski_split(args.push(decimal(depth as nat))) == (args, depth),
        (args.len() == 0 || parse_unsigned(args.last(), u32::MAX as nat) is None) ==> sierpinski_split(
            args,
        ) == (args, 6u32),
{
    lemma_parse_decimal(depth as nat, u32::MAX as nat);
    assert(args.push(decimal(depth as nat)).drop_last() =~= args);
}

/// Splits the arguments of `particles spawn sierpinski carpet|triangle`
/// into position arguments and depth.
pub fn sierpinski_arguments(args: &[String]) -> (res: (Vec<String>, u32))
    ensures
        views(res.0@) == sierpinski_split(views(args@)).0,
        res.1 == sierpinski_split(views(args@)).1,
{
    let n = args.len();
    let depth = if n > 0 {
        parse_u32(args[n - 1].as_str())
    } else {
        None
    };
    proof {
        if n > 0 {
            assert(views(args@).last() == args@[n - 1]@);
        }
    }
    match depth {
        Some(d) => {
            let rest = copy_strings(args, 0, n - 1);
            proof {
                assert(views(args@).drop_last() =~= views(args@.subrange(0, n - 1)));
            }
            (rest, d)
        },
        None => {
            let all = copy_strings(args, 0, n);
            proof {
                assert(args@.subrange(0, n as int) =~= args@);
            }
            (all, DEFAULT_SIERPINSKI_DEPTH)
        },
    }
}

/// Copies of `args[from..to]`.
pub fn copy_strings(args: &[String], from: usize, to: usize) -> (res: Vec<String>)
    requires
        from <= to <= args@.len(),
    ensures
        views(res@) == views(args@.subrange(from as int, to as int)),
{
    let mut res: Vec<String> = Vec::new();
    let mut i = from;
    while i < to
        invariant
            from <= i <= to <= args@.len(),
            views(res@) == views(args@.subrange(from as int, i as int)),
        decreases to - i,
    {
        let ghost before = res@;
        let item = owned(args[i].as_str());
        res.push(item);
        proof {
            assert(args@.subrange(from as int, i + 1) =~= args@.subrange(from as int, i as int).push(
                args@[i as int],
            ));
            assert(views(res@) =~= views(before).push(args@[i as int]@));
            assert(views(args@.subrange(from as int, i + 1)) =~= views(
                args@.subrange(from as int, i as int),
            ).push(args@[i as int]@));
        }
        i += 1;
    }
    res
}

/// `particles spawn sierpinski carpet <x>,<y> [depth]`.
pub struct ParticlesSpawnSierpinskiCarpetConsoleCommand;

impl ParticlesSpawnSierpinskiCarpetConsoleCommand {
    /// The position arguments and the depth of the carpet.
    pub fn run(&self, args: &[String]) -> (res: (Vec<String>, u32))
        ensures
            views(res.0@) == sierpinski_split(views(args@)).0,
            res.1 == sierpinski_split(views(args@)).1,
    {
        sierpinski_arguments(args)
    }
}

/// `particles spawn sierpinski triangle <x>,<y> [depth]`.
pub struct ParticlesSpawnSierpinskiTriangleConsoleCommand;

impl ParticlesSpawnSierpinskiTriangleConsoleCommand {
    /// The position arguments and the depth of the triangle.
    pub fn run(&self, args: &[String]) -> (res: (Vec<String>, u32))
        ensures
            views(res.0@) == sierpinski_split(views(args@)).0,
            res.1 == sierpinski_split(views(args@)).1,
    {
        sierpinski_arguments(args)
    }
}

/// Why `particles spawn text` refused its alignment or text arguments.
#[derive(PartialEq, Eq, Clone, Debug)]
pub enum TextArgsError {
    /// Fewer than three arguments: the usage is shown.
    TooFewArguments,
    /// `--align` names no alignment; the unknown value is kept.
    UnknownAlignment(String),
    /// `--align` is the last argument.
    MissingAlignment,
    /// No text follows.
    NoText,
}

/// The alignment named by the argument after `--align`.
pub open spec fn alignment_named(a: Seq<char>) -> Option<TextAlignment> {
    if a == "left"@ {
        Some(TextAlignment::Left)
    } else if a == "center"@ {
        Some(TextAlignment::Center)
    } else if a == "right"@ {
        Some(TextAlignment::Right)
    } else {
        None
    }
}

/// Each of the words `left`, `center` and `right` names its own alignment,
/// and no other word names one.
pub proof fn law_alignment_words(a: Seq<char>)
    ensures
        (alignment_named(a) == Some(TextAlignment::Left)) == (a == "left"@),
        (alignment_named(a) == Some(TextAlignment::Center)) == (a == "center"@),
        (alignment_named(a) == Some(TextAlignment::Right)) == (a == "right"@),
        (alignment_named(a) is None) == (a != "left"@ && a != "center"@ && a != "right"@),
{
    reveal_strlit("left");
    reveal_strlit("center");
    reveal_strlit("right");
    assert("left"@.len() == 4 && "center"@.len() == 6 && "right"@.len() == 5);
}

/// Where the text begins among the arguments of `particles spawn text`.
pub open spec fn text_start(args: Seq<Seq<char>>) -> int {
    if args[2] == "--align"@ {
        4
    } else {
        2
    }
}

/// `particles spawn text <x>,<y> <font_size> [--align left|center|right] <text...>`.
pub struct ParticlesSpawnTextConsoleCommand;

impl ParticlesSpawnTextConsoleCommand {
    /// The alignment and the text to spawn. At least three arguments are
    /// needed; after the position and the font size (which the caller reads)
    /// come an optional `--align <left|center|right>`, then the words of the
    /// text, joined by spaces, where each `\n` becomes a line break.
    pub fn run(&self, args: &[String]) -> (res: Result<(TextAlignment, String), TextArgsError>)
        ensures
            ({
                let a = views(args@);
                if a.len() < 3 {
                    res == Err::<(TextAlignment, String), TextArgsError>(
                        TextArgsError::TooFewArguments,
                    )
                } else if a[2] == "--align"@ && a.len() == 3 {
                    res == Err::<(TextAlignment, String), TextArgsError>(
                        TextArgsError::MissingAlignment,
                    )
                } else if a[2] == "--align"@ && alignment_named(a[3]) is None {
                    res matches Err(TextArgsError::UnknownAlignment(v)) && v@ == a[3]
                } else if a.len() <= text_start(a) {
                    res == Err::<(TextAlignment, String), TextArgsError>(TextArgsError::NoText)
                } else {
                    res matches Ok((al, text)) && al == (if a[2] == "--align"@ {
                        alignment_named(a[3])->0
                    } else {
                        TextAlignment::Left
                    }) && text@ == unescape_newlines(
                        joined(a.subrange(text_start(a), a.len() as int), " "@),
                    )
                }
            }),
            ({
                let a = views(args@);
                a.len() >= 5 && a[2] == "--align"@ ==> {
                    &&& a[3] == "left"@ ==> (res matches Ok((al, _)) && al == TextAlignment::Left)
                    &&& a[3] == "center"@ ==> (res matches Ok((al, _)) && al == TextAlignment::Center)
                    &&& a[3] == "right"@ ==> (res matches Ok((al, _)) && al == TextAlignment::Right)
                }
            }),
            ({
                let a = views(args@);
                a.len() >= 3 && a[2] != "--align"@ ==> (res matches Ok((al, _)) && al
                    == TextAlignment::Left)
            }),
    {
        proof {
            reveal_strlit("left");
            reveal_strlit("center");
            reveal_strlit("right");
            assert("left"@.len() == 4 && "center"@.len() == 6 && "right"@.len() == 5);
        }
        let ghost a = views(args@);
        let n = args.len();
        if n < 3 {
            return Err(TextArgsError::TooFewArguments);
        }
        let mut start: usize = 2;
        let mut alignment = TextAlignment::Left;
        assert(a[2] == args@[2]@);
        if str_eq(args[2].as_str(), "--align") {
            if n < 4 {
                return Err(TextArgsError::MissingAlignment);
            }
            assert(a[3] == args@[3]@);
            let value = args[3].as_str();
            if str_eq(value, "left") {
                alignment = TextAlignment::Left;
            } else if str_eq(value, "center") {
                alignment = TextAlignment::Center;
            } else if str_eq(value, "right") {
                alignment = TextAlignment::Right;
            } else {
                return Err(TextArgsError::UnknownAlignment(owned(value)));
            }
            start = 4;
        }
        if n <= start {
            return Err(TextArgsError::NoText);
        }
        let words = copy_strings(args, start, n);
        proof {
            assert(views(args@.subrange(start as int, n as int)) =~= a.subrange(
                start as int,
                n as int,
            ));
        }
        let text = join(words.as_slice(), " ");
        let text = replace_escaped_newlines(text.as_str());
        Ok((alignment, text))
    }
}

/// The name shown for a scene file: the part of `path` after the last `/`
/// with the `.scn.ron` extension removed; a file name without that
/// extension shows as the whole path.
pub open spec fn scene_name_of(path: Seq<char>) -> Seq<char> {
    let segment = last_segment(path);
    let suffix = ".scn.ron"@;
    if suffix.is_suffix_of(segment) {
        segment.take(segment.len() - suffix.len())
    } else {
        path
    }
}

/// The part of `path` after its last `/`, or all of it.
pub open spec fn last_segment(path: Seq<char>) -> Seq<char> {
    if exists|i: int| 0 <= i < path.len() && path[i] == '/' {
        let i = choose|i: int|
            0 <= i < path.len() && path[i] == '/' && forall|j: int|
                i < j < path.len() ==> path[j] != '/';
        path.skip(i + 1)
    } else {
        path
    }
}

/// The name under which a scene file is listed and spawned.
pub fn scene_name(path: &str) -> (res: String)
    ensures
        res@ == scene_name_of(path@),
{
    let cs = chars_of(path);
    let n = cs.len();
    let mut start: usize = n;
    while start > 0 && cs[start - 1] != '/'
        invariant
            cs@ == path@,
            n == cs@.len(),
            start <= n,
            forall|j: int| start <= j < n ==> cs@[j] != '/',
        decreases start,
    {
        start -= 1;
    }
    let found = start > 0;
    proof {
        if found {
            let i = start - 1;
            assert(cs@[i as int] == '/');
            assert(path@[i as int] == '/');
            let k = choose|k: int|
                0 <= k < path@.len() && path@[k] == '/' && forall|j: int|
                    k < j < path@.len() ==> path@[j] != '/';
            if k < i {
                assert(path@[i as int] == '/');
            }
            if k > i {
                assert(path@[k] == '/');
            }
            assert(k == i);
        } else {
            assert(!exists|i: int| 0 <= i < path@.len() && path@[i] == '/');
            assert(cs@.skip(0) =~= cs@);
        }
    }
    let ghost segment = last_segment(path@);
    let seg_start: usize = start;
    assert(segment =~= cs@.skip(seg_start as int));
    let suffix = chars_of(".scn.ron");
    let seg_len = n - seg_start;
    let m = suffix.len();
    let mut ends = false;
    if m <= seg_len {
        let mut k: usize = 0;
        while k < m && suffix[k] == cs[n - m + k]
            invariant
                m <= seg_len,
                seg_len == n - seg_start,
                m == suffix@.len(),
                n == cs@.len(),
                seg_start <= n,
                k <= m,
                forall|t: int| 0 <= t < k ==> suffix@[t] == cs@[n - m + t],
            decreases m - k,
        {
            k += 1;
        }
        ends = k == m;
        proof {
            if ends {
                assert(segment.subrange(segment.len() - m, segment.len() as int) =~= suffix@);
                assert(suffix@.is_suffix_of(segment));
            } else {
                assert(suffix@[k as int] != segment[segment.len() - m + k]);
                assert(!suffix@.is_suffix_of(segment));
            }
        }
    }
    if ends {
        let res = string_from_chars(&cs, seg_start, n - m);
        proof {
            assert(res@ =~= segment.take(segment.len() - m));
        }
        res
    } else {
        proof {
            assert(!suffix@.is_suffix_of(segment));
        }
        owned(path)
    }
}

/// A scene file `<dir>/<name>.scn.ron` is listed, and found, under `name`,
/// whatever the directory, as long as the name holds no `/`.
pub proof fn law_scene_file_name_is_found(dir: Seq<char>, name: Seq<char>)
    requires
        forall|i: int| 0 <= i < name.len() ==> name[i] != '/',
    ensures
        scene_name_of(dir + seq!['/'] + name + ".scn.ron"@) == name,
{
    reveal_strlit(".scn.ron");
    let suffix = ".scn.ron"@;
    let path = dir + seq!['/'] + name + suffix;
    let seg = name + suffix;
    let k = dir.len() as int;
    assert(path[k] == '/');
    assert forall|j: int| k < j < path.len() implies path[j] != '/' by {
        if j < k + 1 + name.len() {
            assert(path[j] == name[j - k - 1]);
        } else {
            assert(path[j] == suffix[j - k - 1 - name.len()]);
        }
    }
    let i = choose|i: int|
        0 <= i < path.len() && path[i] == '/' && forall|j: int| i < j < path.len() ==> path[j] != '/';
    if i < k {
        assert(path[k] == '/');
    }
    assert(i == k);
    assert(path.skip(k + 1) =~= seg);
    assert(seg.subrange(seg.len() - suffix.len(), seg.len() as int) =~= suffix);
    assert(suffix.is_suffix_of(seg));
    assert(seg.take(seg.len() - suffix.len()) =~= name);
}

/// The first of the scene files `paths` whose scene name is `name`.
pub fn find_scene(paths: &Vec<String>, name: &str) -> (res: Option<usize>)
    ensures
        match res {
            Some(k) => k < paths@.len() && scene_name_of(paths@[k as int]@) == name@ && forall|j: int|
                0 <= j < k ==> scene_name_of(paths@[j]@) != name@,
            None => forall|j: int| 0 <= j < paths@.len() ==> scene_name_of(paths@[j]@) != name@,
        },
{
    let mut i: usize = 0;
    while i < paths.len()
        invariant
            i <= paths@.len(),
            forall|j: int| 0 <= j < i ==> scene_name_of(paths@[j]@) != name@,
        decreases paths@.len() - i,
    {
        let candidate = scene_name(paths[i].as_str());
        if str_eq(candidate.as_str(), name) {
            return Some(i);
        }
        i += 1;
    }
    None
}

/// `scene spawn <name> <x>,<y> [--overwrite]`.
pub struct SceneSpawnConsoleCommand;

impl SceneSpawnConsoleCommand {
    /// The scene name and the position arguments (every argument after the
    /// name except `--overwrite`); `None` when fewer than two arguments are
    /// given.
    pub fn run(&self, args: &[String]) -> (res: Option<(String, Vec<String>)>)
        ensures
            args@.len() < 2 ==> res is None,
            args@.len() >= 2 ==> (res matches Some((name, position)) && name@ == args@[0]@ && views(
                position@,
            ) == views(args@).skip(1).filter(|a: Seq<char>| a != "--overwrite"@)),
    {
        if args.len() < 2 {
            return None;
        }
        let ghost rest = views(args@).skip(1);
        let mut position: Vec<String> = Vec::new();
        let mut i: usize = 1;
        while i < args.len()
            invariant
                1 <= i <= args@.len(),
                rest == views(args@).skip(1),
                views(position@) == rest.take(i - 1).filter(|a: Seq<char>| a != "--overwrite"@),
            decreases args@.len() - i,
        {
            assert(rest.take(i as int).drop_last() =~= rest.take(i - 1));
            assert(rest[i - 1] == args@[i as int]@);
            if !str_eq(args[i].as_str(), "--overwrite") {
                position.push(owned(args[i].as_str()));
            }
            proof {
                reveal_with_fuel(Seq::filter, 1);
                assert(views(position@) =~= rest.take(i as int).filter(
                    |a: Seq<char>| a != "--overwrite"@,
                ));
            }
            i += 1;
        }
        assert(rest.take(args@.len() - 1) =~= rest);
        Some((owned(args[0].as_str()), position))
    }
}

/// Why a camera position could not be read.
#[derive(PartialEq, Eq, Clone, Debug)]
pub enum PositionParseError {
    /// The arguments, or one coordinate, do not form a position; the text
    /// in question is kept.
    Invalid(String),
}

/// The first `,` of `s`, if any.
pub open spec fn first_comma(s: Seq<char>) -> Option<int> {
    if exists|i: int| 0 <= i < s.len() && s[i] == ',' {
        Some(
            choose|i: int|
                0 <= i < s.len() && s[i] == ',' && forall|j: int| 0 <= j < i ==> s[j] != ',',
        )
    } else {
        None
    }
}

/// The texts of the two coordinates of a camera position: the first
/// argument split at its first comma, or else the first two arguments;
/// with neither, an error holding the arguments joined by spaces.
pub open spec fn position_texts(args: Seq<Seq<char>>) -> Result<(Seq<char>, Seq<char>), Seq<char>> {
    if args.len() > 0 && first_comma(args[0]) is Some {
        let i = first_comma(args[0])->0;
        Ok((args[0].take(i), args[0].skip(i + 1)))
    } else if args.len() >= 2 {
        Ok((args[0], args[1]))
    } else {
        Err(joined(args, " "@))
    }
}

/// Splits the arguments of `camera set position` into the texts of the two
/// coordinates.
pub fn split_position(position: &[String]) -> (res: Result<(String, String), PositionParseError>)
    ensures
        match position_texts(views(position@)) {
            Ok((x, y)) => res matches Ok((rx, ry)) && rx@ == x && ry@ == y,
            Err(e) => res matches Err(PositionParseError::Invalid(m)) && m@ == e,
        },
{
    let ghost a = views(position@);
    if position.len() > 0 {
        let cs = chars_of(position[0].as_str());
        assert(a[0] == cs@);
        let mut i: usize = 0;
        while i < cs.len()
            invariant
                i <= cs@.len(),
                a == views(position@),
                position@.len() > 0,
                a[0] == cs@,
                forall|j: int| 0 <= j < i ==> cs@[j] != ',',
            decreases cs@.len() - i,
        {
            if cs[i] == ',' {
                proof {
                    let k = choose|k: int|
                        0 <= k < cs@.len() && cs@[k] == ',' && forall|j: int|
                            0 <= j < k ==> cs@[j] != ',';
                    if k < i {
                    }
                    if k > i {
                        assert(cs@[i as int] == ',');
                    }
                    assert(k == i);
                }
                let x = string_from_chars(&cs, 0, i);
                let y = string_from_chars(&cs, i + 1, cs.len());
                proof {
                    assert(x@ =~= a[0].take(i as int));
                    assert(y@ =~= a[0].skip(i + 1));
                }
                return Ok((x, y));
            }
            i += 1;
        }
        assert(first_comma(a[0]) is None);
    }
    if position.len() >= 2 {
        Ok((owned(position[0].as_str()), owned(position[1].as_str())))
    } else {
        Err(PositionParseError::Invalid(join(position, " ")))
    }
}

/// The characters of a coordinate that take part in reading it: numeric
/// characters and `.`.
pub open spec fn coordinate_chars(s: Seq<char>) -> Seq<char> {
    s.filter(|c: char| char_is_numeric(c) || c == '.')
}

/// Keeps the numeric characters and dots of a coordinate's text.
pub fn filter_coordinate(s: &str) -> (res: String)
    ensures
        res@ == coordinate_chars(s@),
{
    let cs = chars_of(s);
    let mut res = String::new();
    let mut i: usize = 0;
    while i < cs.len()
        invariant
            cs@ == s@,
            i <= cs@.len(),
            res@ == coordinate_chars(cs@.take(i as int)),
        decreases cs@.len() - i,
    {
        let c = cs[i];
        assert(cs@.take(i + 1).drop_last() =~= cs@.take(i as int));
        if is_numeric(c) || c == '.' {
            push_char(&mut res, c);
        }
        proof {
            reveal_with_fuel(Seq::filter, 1);
        }
        i += 1;
    }
    assert(cs@.take(cs@.len() as int) =~= cs@);
    res
}

} // verus!
