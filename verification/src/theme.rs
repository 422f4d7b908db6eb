//! Renderer-independent COSMIC design tokens.

use vstd::prelude::*;

use crate::text::{decimal, push_decimal};

verus! {

/// COSMIC appearance mode exposed to widget CSS.
#[derive(Debug, Clone, Copy, PartialEq, Eq, Structural)]
pub enum ThemeMode {
    Light,
    Dark,
}

/// Renderer-independent COSMIC design tokens.
#[derive(Debug, Clone, PartialEq, Eq)]
pub struct CosmicTheme {
    pub mode: ThemeMode,
    pub high_contrast: bool,
    pub frosted: bool,
    pub background: String,
    pub surface: String,
    pub surface_alt: String,
    pub on_background: String,
    pub on_surface: String,
    pub accent: String,
    pub success: String,
    pub warning: String,
    pub destructive: String,
    pub divider: String,
    pub radius_small: u16,
    pub radius_medium: u16,
    pub radius_large: u16,
}

} // verus!

verus! {

/// The CSS keyword of an appearance mode.
pub open spec fn mode_keyword(mode: ThemeMode) -> Seq<char> {
    match mode {
        ThemeMode::Light => "light"@,
        ThemeMode::Dark => "dark"@,
    }
}

/// The inherited stylesheet of `theme`: one `:root` rule that declares every token as a
/// `--cw-*` custom property, the radii in pixels, the fixed spacing scale, and the
/// color scheme.
pub open spec fn theme_css(theme: CosmicTheme) -> Seq<char> {
    let mode = mode_keyword(theme.mode);
    ":root{--cw-mode:"@ + mode + ";--cw-bg:"@ + theme.background@ + ";--cw-surface:"@
        + theme.surface@ + ";--cw-surface-alt:"@ + theme.surface_alt@ + ";--cw-on-bg:"@
        + theme.on_background@ + ";--cw-on-surface:"@ + theme.on_surface@ + ";--cw-accent:"@
        + theme.accent@ + ";--cw-success:"@ + theme.success@ + ";--cw-warning:"@
        + theme.warning@ + ";--cw-destructive:"@ + theme.destructive@ + ";--cw-divider:"@
        + theme.divider@ + ";--cw-radius-sm:"@ + decimal(theme.radius_small as nat)
        + "px;--cw-radius-md:"@ + decimal(theme.radius_medium as nat) + "px;--cw-radius-lg:"@
        + decimal(theme.radius_large as nat)
        + "px;--cw-space-1:4px;--cw-space-2:8px;--cw-space-3:12px;--cw-space-4:16px;--cw-space-6:24px;color-scheme:"@
        + mode + ";}"@
}

impl CosmicTheme {
    /// Produces the small inherited stylesheet inserted before widget styles.
    pub fn to_css(&self) -> (res: String)
        ensures
            res@ == theme_css(*self),
    {
        let mode = match self.mode {
            ThemeMode::Light => "light",
            ThemeMode::Dark => "dark",
        };
        let mut css = String::from_str(":root{--cw-mode:");
        css.append(mode);
        css.append(";--cw-bg:");
        css.append(self.background.as_str());
        css.append(";--cw-surface:");
        css.append(self.surface.as_str());
        css.append(";--cw-surface-alt:");
        css.append(self.surface_alt.as_str());
        css.append(";--cw-on-bg:");
        css.append(self.on_background.as_str());
        css.append(";--cw-on-surface:");
        css.append(self.on_surface.as_str());
        css.append(";--cw-accent:");
        css.append(self.accent.as_str());
        css.append(";--cw-success:");
        css.append(self.success.as_str());
        css.append(";--cw-warning:");
        css.append(self.warning.as_str());
        css.append(";--cw-destructive:");
        css.append(self.destructive.as_str());
        css.append(";--cw-divider:");
        css.append(self.divider.as_str());
        css.append(";--cw-radius-sm:");
        push_decimal(&mut css, self.radius_small as u64);
        css.append("px;--cw-radius-md:");
        push_decimal(&mut css, self.radius_medium as u64);
        css.append("px;--cw-radius-lg:");
        push_decimal(&mut css, self.radius_large as u64);
        css.append(
            "px;--cw-space-1:4px;--cw-space-2:8px;--cw-space-3:12px;--cw-space-4:16px;--cw-space-6:24px;color-scheme:",
        );
        css.append(mode);
        css.append(";}");
        css
    }
}

impl Default for CosmicTheme {
    fn default() -> (res: CosmicTheme)
        ensures
            res.mode == ThemeMode::Dark,
            !res.high_contrast,
            res.frosted,
            res.background@ == "#18181b"@,
            res.surface@ == "rgba(43, 43, 49, 0.92)"@,
            res.surface_alt@ == "rgba(58, 58, 66, 0.9)"@,
            res.on_background@ == "#f3f3f5"@,
            res.on_surface@ == "#f3f3f5"@,
            res.accent@ == "#74b9ff"@,
            res.success@ == "#57d39b"@,
            res.warning@ == "#f6c177"@,
            res.destructive@ == "#ff7b86"@,
            res.divider@ == "rgba(255, 255, 255, 0.12)"@,
            res.radius_small == 8,
            res.radius_medium == 12,
            res.radius_large == 18,
    {
        CosmicTheme {
            mode: ThemeMode::Dark,
            high_contrast: false,
            frosted: true,
            background: String::from_str("#18181b"),
            surface: String::from_str("rgba(43, 43, 49, 0.92)"),
            surface_alt: String::from_str("rgba(58, 58, 66, 0.9)"),
            on_background: String::from_str("#f3f3f5"),
            on_surface: String::from_str("#f3f3f5"),
            accent: String::from_str("#74b9ff"),
            success: String::from_str("#57d39b"),
            warning: String::from_str("#f6c177"),
            destructive: String::from_str("#ff7b86"),
            divider: String::from_str("rgba(255, 255, 255, 0.12)"),
            radius_small: 8,
            radius_medium: 12,
            radius_large: 18,
        }
    }
}

} // verus!

verus! {

/// The stylesheet declares the accent color as the `--cw-accent` token.
pub proof fn lemma_css_declares_accent(theme: CosmicTheme)
    ensures
        crate::text::contains_seq(theme_css(theme), "--cw-accent:"@ + theme.accent@),
{
    reveal_strlit(";--cw-accent:");
    reveal_strlit("--cw-accent:");
    let mode = mode_keyword(theme.mode);
    let before = ":root{--cw-mode:"@ + mode + ";--cw-bg:"@ + theme.background@ + ";--cw-surface:"@
        + theme.surface@ + ";--cw-surface-alt:"@ + theme.surface_alt@ + ";--cw-on-bg:"@
        + theme.on_background@ + ";--cw-on-surface:"@ + theme.on_surface@;
    let token = "--cw-accent:"@ + theme.accent@;
    let css = theme_css(theme);
    let at: int = before.len() as int + 1;
    let rest = ";--cw-success:"@ + theme.success@ + ";--cw-warning:"@ + theme.warning@
        + ";--cw-destructive:"@ + theme.destructive@ + ";--cw-divider:"@ + theme.divider@
        + ";--cw-radius-sm:"@ + decimal(theme.radius_small as nat) + "px;--cw-radius-md:"@
        + decimal(theme.radius_medium as nat) + "px;--cw-radius-lg:"@ + decimal(
        theme.radius_large as nat,
    ) + "px;--cw-space-1:4px;--cw-space-2:8px;--cw-space-3:12px;--cw-space-4:16px;--cw-space-6:24px;color-scheme:"@
        + mode + ";}"@;
    assert(";--cw-accent:"@ =~= seq![';'] + "--cw-accent:"@);
    assert(css =~= before + seq![';'] + token + rest);
    assert(css.subrange(at, at + token.len() as int) =~= token);
    assert(crate::text::occurs_at(css, token, at));
}

} // verus!
