use crate::render::renderer::registry::{GlStage, RenderError};
use vstd::prelude::*;

verus! {

/// The character of one decimal digit.
pub open spec fn digit(d: nat) -> char {
    if d == 0 {
        '0'
    } else if d == 1 {
        '1'
    } else if d == 2 {
        '2'
    } else if d == 3 {
        '3'
    } else if d == 4 {
        '4'
    } else if d == 5 {
        '5'
    } else if d == 6 {
        '6'
    } else if d == 7 {
        '7'
    } else if d == 8 {
        '8'
    } else {
        '9'
    }
}

/// A number in decimal, without sign or leading zeros.
pub open spec fn decimal(n: nat) -> Seq<char>
    decreases n,
{
    if n < 10 {
        seq![digit(n)]
    } else {
        decimal(n / 10).push(digit(n % 10))
    }
}

/// What went wrong at a step of GPU work, in words.
pub open spec fn stage_text(stage: GlStage) -> Seq<char> {
    match stage {
        GlStage::AllocTexture => "Failed to allocate texture on GPU!"@,
        GlStage::UploadTexture => "Failed to upload texture to GPU!"@,
        GlStage::UploadTextures => "Failed to upload textures to GPU!"@,
        GlStage::GenFramebuffer => "Failed to generate framebuffer!"@,
        GlStage::GenFramebuffers => "Failed to generate framebuffers!"@,
        GlStage::GenDepthBuffer => "Failed to generate depth buffer!"@,
        GlStage::DuplicateTexture => "Failed to duplicate texture!"@,
        GlStage::Init => "Failed to fully initialize OpenGL!"@,
    }
}

impl RenderError {
    /// The error as the text that the caller is given.
    pub open spec fn text(self) -> Seq<char> {
        match self {
            RenderError::WhitePixel => "Couldn't pack white_pixel"@,
            RenderError::Gl(f) => stage_text(f.stage) + " (OpenGL code "@ + decimal(f.code as nat)
                + ")"@,
        }
    }
}

/// The `Display` form of a `u32`, through `format!`: the number in decimal.
/// Taken on trust.
#[verifier::external_body]
fn decimal_string(n: u32) -> (s: String)
    ensures
        s@ == decimal(n as nat),
{
    format!("{}", n)
}

/// `format!` of two strings: the one followed by the other. Taken on
/// trust.
#[verifier::external_body]
fn concat(a: &str, b: &str) -> (s: String)
    ensures
        s@ == a@ + b@,
{
    format!("{}{}", a, b)
}

fn stage_message(stage: GlStage) -> (s: &'static str)
    ensures
        s@ == stage_text(stage),
{
    match stage {
        GlStage::AllocTexture => "Failed to allocate texture on GPU!",
        GlStage::UploadTexture => "Failed to upload texture to GPU!",
        GlStage::UploadTextures => "Failed to upload textures to GPU!",
        GlStage::GenFramebuffer => "Failed to generate framebuffer!",
        GlStage::GenFramebuffers => "Failed to generate framebuffers!",
        GlStage::GenDepthBuffer => "Failed to generate depth buffer!",
        GlStage::DuplicateTexture => "Failed to duplicate texture!",
        GlStage::Init => "Failed to fully initialize OpenGL!",
    }
}

impl RenderError {
    /// The error as the text that the caller is given.
    pub fn message(&self) -> (s: String)
        ensures
            s@ == self.text(),
    {
        match self {
            RenderError::WhitePixel => "Couldn't pack white_pixel".to_owned(),
            RenderError::Gl(f) => {
                let head = concat(stage_message(f.stage), " (OpenGL code ");
                let number = decimal_string(f.code);
                let body = concat(head.as_str(), number.as_str());
                let s = concat(body.as_str(), ")");
                s
            },
        }
    }
}

} // verus!
