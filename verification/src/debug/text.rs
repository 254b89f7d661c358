use vstd::prelude::*;
use crate::voxel::face::VoxelFace;
use crate::util::text::{owned, join, i32_to_decimal, int_decimal};

verus! {

/// Where on the screen a block of debug text is anchored (a 3x3 grid).
#[derive(Clone, Copy, PartialEq, Eq, Debug, Structural)]
pub enum TextAnchor {
    TopLeft,
    TopCenter,
    TopRight,
    CenterLeft,
    Center,
    CenterRight,
    BottomLeft,
    BottomCenter,
    BottomRight,
}

/// Which way text grows from its anchor.
#[derive(Clone, Copy, PartialEq, Eq, Debug, Structural)]
pub enum HorizontalDirection {
    Left,
    Center,
    Right,
}

/// The column of an anchor: 0 left, 1 center, 2 right.
pub open spec fn anchor_column(a: TextAnchor) -> int {
    match a {
        TextAnchor::TopLeft | TextAnchor::CenterLeft | TextAnchor::BottomLeft => 0,
        TextAnchor::TopCenter | TextAnchor::Center | TextAnchor::BottomCenter => 1,
        TextAnchor::TopRight | TextAnchor::CenterRight | TextAnchor::BottomRight => 2,
    }
}

impl TextAnchor {
    /// The direction of the anchor's column.
    pub fn horizontal_direction(&self) -> (d: HorizontalDirection)
        ensures
            d == if anchor_column(*self) == 0 {
                HorizontalDirection::Left
            } else if anchor_column(*self) == 1 {
                HorizontalDirection::Center
            } else {
                HorizontalDirection::Right
            },
    {
        match self {
            TextAnchor::TopLeft | TextAnchor::CenterLeft | TextAnchor::BottomLeft => HorizontalDirection::Left,
            TextAnchor::TopCenter | TextAnchor::Center | TextAnchor::BottomCenter => HorizontalDirection::Center,
            TextAnchor::TopRight | TextAnchor::CenterRight | TextAnchor::BottomRight => HorizontalDirection::Right,
        }
    }
}

/// The alignment of one line.
#[derive(Clone, Copy, PartialEq, Eq, Debug, Structural)]
pub enum TextAlign {
    Left,
    Center,
    Right,
}

/// A line of text with its alignment.
pub struct FormattedLine {
    pub text: String,
    pub align: TextAlign,
}

impl FormattedLine {
    /// A left-aligned line.
    pub fn left(text: &str) -> (l: FormattedLine)
        ensures
            l.text@ == text@,
            l.align == TextAlign::Left,
    {
        FormattedLine { text: owned(text), align: TextAlign::Left }
    }

    /// A centered line.
    pub fn center(text: &str) -> (l: FormattedLine)
        ensures
            l.text@ == text@,
            l.align == TextAlign::Center,
    {
        FormattedLine { text: owned(text), align: TextAlign::Center }
    }

    /// A right-aligned line.
    pub fn right(text: &str) -> (l: FormattedLine)
        ensures
            l.text@ == text@,
            l.align == TextAlign::Right,
    {
        FormattedLine { text: owned(text), align: TextAlign::Right }
    }
}

/// Lines of debug text, each with its alignment, in order.
pub struct DebugText {
    lines: Vec<FormattedLine>,
}

impl DebugText {
    /// The lines as plain values.
    pub closed spec fn view_lines(&self) -> Seq<(Seq<char>, TextAlign)> {
        self.lines@.map_values(|l: FormattedLine| (l.text@, l.align))
    }

    /// No line.
    pub fn new() -> (t: DebugText)
        ensures
            t.view_lines() == Seq::<(Seq<char>, TextAlign)>::empty(),
    {
        let t = DebugText { lines: Vec::new() };
        assert(t.view_lines() =~= Seq::<(Seq<char>, TextAlign)>::empty());
        t
    }

    /// Adds a line with an alignment.
    pub fn line(&mut self, text: &str, align: TextAlign)
        ensures
            final(self).view_lines() == old(self).view_lines().push((text@, align)),
    {
        self.lines.push(FormattedLine { text: owned(text), align });
        assert(self.view_lines() =~= old(self).view_lines().push((text@, align)));
    }

    /// Adds a left-aligned line.
    pub fn line_left(&mut self, text: &str)
        ensures
            final(self).view_lines() == old(self).view_lines().push((text@, TextAlign::Left)),
    {
        self.line(text, TextAlign::Left);
    }

    /// Adds a centered line.
    pub fn line_center(&mut self, text: &str)
        ensures
            final(self).view_lines() == old(self).view_lines().push((text@, TextAlign::Center)),
    {
        self.line(text, TextAlign::Center);
    }

    /// Adds a right-aligned line.
    pub fn line_right(&mut self, text: &str)
        ensures
            final(self).view_lines() == old(self).view_lines().push((text@, TextAlign::Right)),
    {
        self.line(text, TextAlign::Right);
    }

    /// Adds an empty left-aligned line.
    pub fn empty(&mut self)
        ensures
            final(self).view_lines() == old(self).view_lines().push((Seq::<char>::empty(), TextAlign::Left)),
    {
        let e = "";
        proof {
            reveal_strlit("");
            assert(e@ =~= Seq::<char>::empty());
        }
        self.line(e, TextAlign::Left);
    }

    /// Removes every line.
    pub fn clear(&mut self)
        ensures
            final(self).view_lines() == Seq::<(Seq<char>, TextAlign)>::empty(),
    {
        self.lines.clear();
        assert(self.view_lines() =~= Seq::<(Seq<char>, TextAlign)>::empty());
    }

    /// Whether there is no line.
    pub fn is_empty(&self) -> (b: bool)
        ensures
            b == (self.view_lines().len() == 0),
    {
        self.lines.len() == 0
    }

    /// The lines.
    pub fn lines(&self) -> (r: &[FormattedLine])
        ensures
            r@.map_values(|l: FormattedLine| (l.text@, l.align)) == self.view_lines(),
    {
        self.lines.as_slice()
    }
}

impl Default for DebugText {
    fn default() -> (t: DebugText)
        ensures
            t.view_lines() == Seq::<(Seq<char>, TextAlign)>::empty(),
    {
        DebugText::new()
    }
}

/// The short mark of a face in the debug overlay.
pub open spec fn face_mark(f: VoxelFace) -> Seq<char> {
    match f {
        VoxelFace::Top => "↑"@,
        VoxelFace::Bottom => "↓"@,
        VoxelFace::North => "N"@,
        VoxelFace::South => "S"@,
        VoxelFace::East => "E"@,
        VoxelFace::West => "W"@,
    }
}

fn face_mark_str(f: VoxelFace) -> (s: &'static str)
    ensures
        s@ == face_mark(f),
{
    match f {
        VoxelFace::Top => "↑",
        VoxelFace::Bottom => "↓",
        VoxelFace::North => "N",
        VoxelFace::South => "S",
        VoxelFace::East => "E",
        VoxelFace::West => "W",
    }
}

/// The overlay line for the targeted block:
/// `Target: <name> (<x>,<y>,<z>) [<face mark>]`, or `Target: None`.
pub fn format_target_info(target: Option<(i32, i32, i32, VoxelFace)>, block_name: &str) -> (s: String)
    ensures
        s@ == match target {
            Some(t) => "Target: "@ + block_name@ + " ("@ + int_decimal(t.0 as int) + ","@ + int_decimal(t.1 as int)
                + ","@ + int_decimal(t.2 as int) + ") ["@ + face_mark(t.3) + "]"@,
            None => "Target: None"@,
        },
{
    match target {
        Some((x, y, z, face)) => {
            let s = join("Target: ", block_name);
            let s = join(s.as_str(), " (");
            let s = join(s.as_str(), i32_to_decimal(x).as_str());
            let s = join(s.as_str(), ",");
            let s = join(s.as_str(), i32_to_decimal(y).as_str());
            let s = join(s.as_str(), ",");
            let s = join(s.as_str(), i32_to_decimal(z).as_str());
            let s = join(s.as_str(), ") [");
            let s = join(s.as_str(), face_mark_str(face));
            join(s.as_str(), "]")
        },
        None => owned("Target: None"),
    }
}

/// The overlay label of the face the camera looks at.
pub fn format_camera_facing(face: VoxelFace) -> (s: &'static str)
    ensures
        s@ == face_mark(face) + match face {
            VoxelFace::Top => " Top"@,
            VoxelFace::Bottom => " Bottom"@,
            VoxelFace::North => " North"@,
            VoxelFace::South => " South"@,
            VoxelFace::East => " East"@,
            VoxelFace::West => " West"@,
        },
{
    let r = match face {
        VoxelFace::Top => "↑ Top",
        VoxelFace::Bottom => "↓ Bottom",
        VoxelFace::North => "N North",
        VoxelFace::South => "S South",
        VoxelFace::East => "E East",
        VoxelFace::West => "W West",
    };
    proof {
        reveal_strlit("↑ Top");
        reveal_strlit("↓ Bottom");
        reveal_strlit("N North");
        reveal_strlit("S South");
        reveal_strlit("E East");
        reveal_strlit("W West");
        reveal_strlit("↑");
        reveal_strlit("↓");
        reveal_strlit("N");
        reveal_strlit("S");
        reveal_strlit("E");
        reveal_strlit("W");
        reveal_strlit(" Top");
        reveal_strlit(" Bottom");
        reveal_strlit(" North");
        reveal_strlit(" South");
        reveal_strlit(" East");
        reveal_strlit(" West");
        assert(face_mark(face) + match face {
            VoxelFace::Top => " Top"@,
            VoxelFace::Bottom => " Bottom"@,
            VoxelFace::North => " North"@,
            VoxelFace::South => " South"@,
            VoxelFace::East => " East"@,
            VoxelFace::West => " West"@,
        } =~= r@);
    }
    r
}

} // verus!
