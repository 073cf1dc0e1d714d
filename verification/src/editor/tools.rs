use vstd::prelude::*;

verus! {

/// The editing tools of the canvas.
#[derive(Clone, Copy, Debug, PartialEq, Eq, Structural)]
pub enum ToolKind {
    Select,
    Brush,
    Bucket,
    Rectangle,
    Erase,
    Eyedropper,
    Collision,
    Zone,
    Pan,
    Zoom,
}

pub open spec fn tool_label(t: ToolKind) -> &'static str {
    match t {
        ToolKind::Select => "选择",
        ToolKind::Brush => "画笔",
        ToolKind::Bucket => "油漆桶",
        ToolKind::Rectangle => "矩形",
        ToolKind::Erase => "橡皮",
        ToolKind::Eyedropper => "吸管",
        ToolKind::Collision => "碰撞",
        ToolKind::Zone => "区域",
        ToolKind::Pan => "平移",
        ToolKind::Zoom => "缩放",
    }
}

/// Every tool, in toolbar order.
pub fn all_tools() -> (r: [ToolKind; 10])
    ensures
        r@ == seq![
            ToolKind::Select,
            ToolKind::Brush,
            ToolKind::Bucket,
            ToolKind::Rectangle,
            ToolKind::Erase,
            ToolKind::Eyedropper,
            ToolKind::Collision,
            ToolKind::Zone,
            ToolKind::Pan,
            ToolKind::Zoom,
        ],
{
    let r = [
        ToolKind::Select,
        ToolKind::Brush,
        ToolKind::Bucket,
        ToolKind::Rectangle,
        ToolKind::Erase,
        ToolKind::Eyedropper,
        ToolKind::Collision,
        ToolKind::Zone,
        ToolKind::Pan,
        ToolKind::Zoom,
    ];
    assert(r@ =~= seq![
        ToolKind::Select,
        ToolKind::Brush,
        ToolKind::Bucket,
        ToolKind::Rectangle,
        ToolKind::Erase,
        ToolKind::Eyedropper,
        ToolKind::Collision,
        ToolKind::Zone,
        ToolKind::Pan,
        ToolKind::Zoom,
    ]);
    r
}

impl ToolKind {
    /// The tool's name in the toolbar.
    pub fn label(self) -> (r: &'static str)
        ensures
            r == tool_label(self),
    {
        match self {
            ToolKind::Select => "选择",
            ToolKind::Brush => "画笔",
            ToolKind::Bucket => "油漆桶",
            ToolKind::Rectangle => "矩形",
            ToolKind::Erase => "橡皮",
            ToolKind::Eyedropper => "吸管",
            ToolKind::Collision => "碰撞",
            ToolKind::Zone => "区域",
            ToolKind::Pan => "平移",
            ToolKind::Zoom => "缩放",
        }
    }
}

} // verus!
