//! User configuration: the settings tables of `config.toml` and
//! `voice.toml`, and how a workspace's file overlays the profile's: a value
//! the workspace sets wins, one it leaves unset keeps the profile's.

use vstd::prelude::*;
use crate::setup::{contains_lit_text, contains_text};
use crate::text::{chars_of, eq_lit, opt_text, push_all, push_lit, slice_of, starts_with, string_of};

verus! {

/// `over` where it is set, else `base`.
pub open spec fn pick<T>(base: Option<T>, over: Option<T>) -> Option<T> {
    if over is Some {
        over
    } else {
        base
    }
}

fn pick_opt<T>(base: Option<T>, over: Option<T>) -> (r: Option<T>)
    ensures
        r == pick(base, over),
{
    match over {
        Some(v) => Some(v),
        None => base,
    }
}

/// Per-action keybinding overrides. Each field is the name of an action;
/// the value is a key combo string like `"cmd+d"` or `"cmd+shift+d"`.
/// Omitting a field preserves the default binding for that action.
#[derive(Clone, Default)]
pub struct KeybindingsConfig {
    pub quit: Option<String>,
    pub close_pane: Option<String>,
    pub toggle_command_palette: Option<String>,
    pub split_horizontal: Option<String>,
    pub split_vertical: Option<String>,
    pub split_right: Option<String>,
    pub split_down: Option<String>,
    pub swap_pane_left: Option<String>,
    pub swap_pane_down: Option<String>,
    pub swap_pane_up: Option<String>,
    pub swap_pane_right: Option<String>,
    pub navigate_left: Option<String>,
    pub navigate_down: Option<String>,
    pub navigate_up: Option<String>,
    pub navigate_right: Option<String>,
    pub new_tab: Option<String>,
    pub next_tab: Option<String>,
    pub prev_tab: Option<String>,
    pub first_tab: Option<String>,
    pub last_tab: Option<String>,
    pub nav_back: Option<String>,
    pub toggle_sidebar: Option<String>,
    pub toggle_zoom: Option<String>,
    pub toggle_shortcuts: Option<String>,
    pub rename_context: Option<String>,
    pub rename_pane: Option<String>,
    pub new_context: Option<String>,
    pub new_page_right: Option<String>,
    pub toggle_minimap: Option<String>,
    pub scroll_up: Option<String>,
    pub scroll_down: Option<String>,
    pub increase_font_size: Option<String>,
    pub decrease_font_size: Option<String>,
    pub open_file_browser: Option<String>,
    pub open_quick_note: Option<String>,
    pub open_config: Option<String>,
    pub reload_config: Option<String>,
    pub open_secrets_manager: Option<String>,
    pub force_reload_app: Option<String>,
    pub toggle_notification_modal: Option<String>,
}

impl KeybindingsConfig {
    /// `self` with every value that `other` sets taken from `other`.
    pub open spec fn overlaid(self, other: Self) -> Self {
        KeybindingsConfig {
            quit: pick(self.quit, other.quit),
            close_pane: pick(self.close_pane, other.close_pane),
            toggle_command_palette: pick(self.toggle_command_palette, other.toggle_command_palette),
            split_horizontal: pick(self.split_horizontal, other.split_horizontal),
            split_vertical: pick(self.split_vertical, other.split_vertical),
            split_right: pick(self.split_right, other.split_right),
            split_down: pick(self.split_down, other.split_down),
            swap_pane_left: pick(self.swap_pane_left, other.swap_pane_left),
            swap_pane_down: pick(self.swap_pane_down, other.swap_pane_down),
            swap_pane_up: pick(self.swap_pane_up, other.swap_pane_up),
            swap_pane_right: pick(self.swap_pane_right, other.swap_pane_right),
            navigate_left: pick(self.navigate_left, other.navigate_left),
            navigate_down: pick(self.navigate_down, other.navigate_down),
            navigate_up: pick(self.navigate_up, other.navigate_up),
            navigate_right: pick(self.navigate_right, other.navigate_right),
            new_tab: pick(self.new_tab, other.new_tab),
            next_tab: pick(self.next_tab, other.next_tab),
            prev_tab: pick(self.prev_tab, other.prev_tab),
            first_tab: pick(self.first_tab, other.first_tab),
            last_tab: pick(self.last_tab, other.last_tab),
            nav_back: pick(self.nav_back, other.nav_back),
            toggle_sidebar: pick(self.toggle_sidebar, other.toggle_sidebar),
            toggle_zoom: pick(self.toggle_zoom, other.toggle_zoom),
            toggle_shortcuts: pick(self.toggle_shortcuts, other.toggle_shortcuts),
            rename_context: pick(self.rename_context, other.rename_context),
            rename_pane: pick(self.rename_pane, other.rename_pane),
            new_context: pick(self.new_context, other.new_context),
            new_page_right: pick(self.new_page_right, other.new_page_right),
            toggle_minimap: pick(self.toggle_minimap, other.toggle_minimap),
            scroll_up: pick(self.scroll_up, other.scroll_up),
            scroll_down: pick(self.scroll_down, other.scroll_down),
            increase_font_size: pick(self.increase_font_size, other.increase_font_size),
            decrease_font_size: pick(self.decrease_font_size, other.decrease_font_size),
            open_file_browser: pick(self.open_file_browser, other.open_file_browser),
            open_quick_note: pick(self.open_quick_note, other.open_quick_note),
            open_config: pick(self.open_config, other.open_config),
            reload_config: pick(self.reload_config, other.reload_config),
            open_secrets_manager: pick(self.open_secrets_manager, other.open_secrets_manager),
            force_reload_app: pick(self.force_reload_app, other.force_reload_app),
            toggle_notification_modal: pick(self.toggle_notification_modal, other.toggle_notification_modal),
        }
    }

    /// Overlays `other` on `self`: each value `other` sets wins, nested tables
    /// are overlaid in turn, and what `other` leaves unset is kept.
    pub fn overlay(&mut self, other: Self)
        ensures
            *final(self) == old(self).overlaid(other),
    {
        self.quit = pick_opt(self.quit.take(), other.quit);
        self.close_pane = pick_opt(self.close_pane.take(), other.close_pane);
        self.toggle_command_palette = pick_opt(self.toggle_command_palette.take(), other.toggle_command_palette);
        self.split_horizontal = pick_opt(self.split_horizontal.take(), other.split_horizontal);
        self.split_vertical = pick_opt(self.split_vertical.take(), other.split_vertical);
        self.split_right = pick_opt(self.split_right.take(), other.split_right);
        self.split_down = pick_opt(self.split_down.take(), other.split_down);
        self.swap_pane_left = pick_opt(self.swap_pane_left.take(), other.swap_pane_left);
        self.swap_pane_down = pick_opt(self.swap_pane_down.take(), other.swap_pane_down);
        self.swap_pane_up = pick_opt(self.swap_pane_up.take(), other.swap_pane_up);
        self.swap_pane_right = pick_opt(self.swap_pane_right.take(), other.swap_pane_right);
        self.navigate_left = pick_opt(self.navigate_left.take(), other.navigate_left);
        self.navigate_down = pick_opt(self.navigate_down.take(), other.navigate_down);
        self.navigate_up = pick_opt(self.navigate_up.take(), other.navigate_up);
        self.navigate_right = pick_opt(self.navigate_right.take(), other.navigate_right);
        self.new_tab = pick_opt(self.new_tab.take(), other.new_tab);
        self.next_tab = pick_opt(self.next_tab.take(), other.next_tab);
        self.prev_tab = pick_opt(self.prev_tab.take(), other.prev_tab);
        self.first_tab = pick_opt(self.first_tab.take(), other.first_tab);
        self.last_tab = pick_opt(self.last_tab.take(), other.last_tab);
        self.nav_back = pick_opt(self.nav_back.take(), other.nav_back);
        self.toggle_sidebar = pick_opt(self.toggle_sidebar.take(), other.toggle_sidebar);
        self.toggle_zoom = pick_opt(self.toggle_zoom.take(), other.toggle_zoom);
        self.toggle_shortcuts = pick_opt(self.toggle_shortcuts.take(), other.toggle_shortcuts);
        self.rename_context = pick_opt(self.rename_context.take(), other.rename_context);
        self.rename_pane = pick_opt(self.rename_pane.take(), other.rename_pane);
        self.new_context = pick_opt(self.new_context.take(), other.new_context);
        self.new_page_right = pick_opt(self.new_page_right.take(), other.new_page_right);
        self.toggle_minimap = pick_opt(self.toggle_minimap.take(), other.toggle_minimap);
        self.scroll_up = pick_opt(self.scroll_up.take(), other.scroll_up);
        self.scroll_down = pick_opt(self.scroll_down.take(), other.scroll_down);
        self.increase_font_size = pick_opt(self.increase_font_size.take(), other.increase_font_size);
        self.decrease_font_size = pick_opt(self.decrease_font_size.take(), other.decrease_font_size);
        self.open_file_browser = pick_opt(self.open_file_browser.take(), other.open_file_browser);
        self.open_quick_note = pick_opt(self.open_quick_note.take(), other.open_quick_note);
        self.open_config = pick_opt(self.open_config.take(), other.open_config);
        self.reload_config = pick_opt(self.reload_config.take(), other.reload_config);
        self.open_secrets_manager = pick_opt(self.open_secrets_manager.take(), other.open_secrets_manager);
        self.force_reload_app = pick_opt(self.force_reload_app.take(), other.force_reload_app);
        self.toggle_notification_modal = pick_opt(self.toggle_notification_modal.take(), other.toggle_notification_modal);
    }
}

/// AI broker configuration: `backend` selects the provider, `"openrouter"`
/// (the default) or `"ollama"`; API keys are never stored here.
#[derive(Clone, Default)]
pub struct AiConfig {
    pub backend: Option<String>,
    pub openrouter: Option<OpenRouterBackendConfig>,
    pub ollama: Option<OllamaBackendConfig>,
}

impl AiConfig {
    /// `self` with every value that `other` sets taken from `other`.
    pub open spec fn overlaid(self, other: Self) -> Self {
        AiConfig {
            backend: pick(self.backend, other.backend),
            openrouter: match other.openrouter {
                Some(i) => match self.openrouter {
                    Some(e) => Some(e.overlaid(i)),
                    None => Some(i),
                },
                None => self.openrouter,
            },
            ollama: match other.ollama {
                Some(i) => match self.ollama {
                    Some(e) => Some(e.overlaid(i)),
                    None => Some(i),
                },
                None => self.ollama,
            },
        }
    }

    /// Overlays `other` on `self`: each value `other` sets wins, nested tables
    /// are overlaid in turn, and what `other` leaves unset is kept.
    pub fn overlay(&mut self, other: Self)
        ensures
            *final(self) == old(self).overlaid(other),
    {
        self.backend = pick_opt(self.backend.take(), other.backend);
        match other.openrouter {
            Some(incoming) => match self.openrouter.take() {
                Some(mut existing) => {
                    existing.overlay(incoming);
                    self.openrouter = Some(existing);
                },
                None => {
                    self.openrouter = Some(incoming);
                },
            },
            None => {},
        }
        match other.ollama {
            Some(incoming) => match self.ollama.take() {
                Some(mut existing) => {
                    existing.overlay(incoming);
                    self.ollama = Some(existing);
                },
                None => {
                    self.ollama = Some(incoming);
                },
            },
            None => {},
        }
    }
}

/// OpenRouter backend configuration.
#[derive(Clone, Default)]
pub struct OpenRouterBackendConfig {
    pub api_key_env: Option<String>,
    pub model_low: Option<String>,
    pub model_medium: Option<String>,
    pub model_high: Option<String>,
}

impl OpenRouterBackendConfig {
    /// `self` with every value that `other` sets taken from `other`.
    pub open spec fn overlaid(self, other: Self) -> Self {
        OpenRouterBackendConfig {
            api_key_env: pick(self.api_key_env, other.api_key_env),
            model_low: pick(self.model_low, other.model_low),
            model_medium: pick(self.model_medium, other.model_medium),
            model_high: pick(self.model_high, other.model_high),
        }
    }

    /// Overlays `other` on `self`: each value `other` sets wins, nested tables
    /// are overlaid in turn, and what `other` leaves unset is kept.
    pub fn overlay(&mut self, other: Self)
        ensures
            *final(self) == old(self).overlaid(other),
    {
        self.api_key_env = pick_opt(self.api_key_env.take(), other.api_key_env);
        self.model_low = pick_opt(self.model_low.take(), other.model_low);
        self.model_medium = pick_opt(self.model_medium.take(), other.model_medium);
        self.model_high = pick_opt(self.model_high.take(), other.model_high);
    }
}

/// Ollama backend configuration.
#[derive(Clone, Default)]
pub struct OllamaBackendConfig {
    pub host: Option<String>,
    pub model_low: Option<String>,
    pub model_medium: Option<String>,
    pub model_high: Option<String>,
}

impl OllamaBackendConfig {
    /// `self` with every value that `other` sets taken from `other`.
    pub open spec fn overlaid(self, other: Self) -> Self {
        OllamaBackendConfig {
            host: pick(self.host, other.host),
            model_low: pick(self.model_low, other.model_low),
            model_medium: pick(self.model_medium, other.model_medium),
            model_high: pick(self.model_high, other.model_high),
        }
    }

    /// Overlays `other` on `self`: each value `other` sets wins, nested tables
    /// are overlaid in turn, and what `other` leaves unset is kept.
    pub fn overlay(&mut self, other: Self)
        ensures
            *final(self) == old(self).overlaid(other),
    {
        self.host = pick_opt(self.host.take(), other.host);
        self.model_low = pick_opt(self.model_low.take(), other.model_low);
        self.model_medium = pick_opt(self.model_medium.take(), other.model_medium);
        self.model_high = pick_opt(self.model_high.take(), other.model_high);
    }
}

/// Notification settings: the master switch, focus mode, and the lowest
/// priority that may open the modal on arrival.
#[derive(Clone, Default)]
pub struct NotificationsConfig {
    pub enabled: Option<bool>,
    pub focus_mode: Option<bool>,
    pub interrupt_threshold: Option<u32>,
}

impl NotificationsConfig {
    /// `self` with every value that `other` sets taken from `other`.
    pub open spec fn overlaid(self, other: Self) -> Self {
        NotificationsConfig {
            enabled: pick(self.enabled, other.enabled),
            focus_mode: pick(self.focus_mode, other.focus_mode),
            interrupt_threshold: pick(self.interrupt_threshold, other.interrupt_threshold),
        }
    }

    /// Overlays `other` on `self`: each value `other` sets wins, nested tables
    /// are overlaid in turn, and what `other` leaves unset is kept.
    pub fn overlay(&mut self, other: Self)
        ensures
            *final(self) == old(self).overlaid(other),
    {
        self.enabled = pick_opt(self.enabled.take(), other.enabled);
        self.focus_mode = pick_opt(self.focus_mode.take(), other.focus_mode);
        self.interrupt_threshold = pick_opt(self.interrupt_threshold.take(), other.interrupt_threshold);
    }
}

/// Logging settings.
#[derive(Clone, Default)]
pub struct LogConfig {
    pub level: Option<String>,
    pub retention_days: Option<u32>,
}

impl LogConfig {
    /// `self` with every value that `other` sets taken from `other`.
    pub open spec fn overlaid(self, other: Self) -> Self {
        LogConfig {
            level: pick(self.level, other.level),
            retention_days: pick(self.retention_days, other.retention_days),
        }
    }

    /// Overlays `other` on `self`: each value `other` sets wins, nested tables
    /// are overlaid in turn, and what `other` leaves unset is kept.
    pub fn overlay(&mut self, other: Self)
        ensures
            *final(self) == old(self).overlaid(other),
    {
        self.level = pick_opt(self.level.take(), other.level);
        self.retention_days = pick_opt(self.retention_days.take(), other.retention_days);
    }
}

/// Experimental feature flags.
#[derive(Clone, Default)]
pub struct BetaConfig {
    pub crt: Option<bool>,
    pub ghost_mode: Option<bool>,
}

impl BetaConfig {
    /// `self` with every value that `other` sets taken from `other`.
    pub open spec fn overlaid(self, other: Self) -> Self {
        BetaConfig {
            crt: pick(self.crt, other.crt),
            ghost_mode: pick(self.ghost_mode, other.ghost_mode),
        }
    }

    /// Overlays `other` on `self`: each value `other` sets wins, nested tables
    /// are overlaid in turn, and what `other` leaves unset is kept.
    pub fn overlay(&mut self, other: Self)
        ensures
            *final(self) == old(self).overlaid(other),
    {
        self.crt = pick_opt(self.crt.take(), other.crt);
        self.ghost_mode = pick_opt(self.ghost_mode.take(), other.ghost_mode);
    }
}

/// Colour overrides for the UI chrome and the terminal palette.
#[derive(Clone, Default)]
pub struct ThemeConfig {
    pub bg_darkest: Option<String>,
    pub bg_sidebar: Option<String>,
    pub bg_toolbar: Option<String>,
    pub terminal_bg: Option<String>,
    pub bg_hover: Option<String>,
    pub bg_active: Option<String>,
    pub text_primary: Option<String>,
    pub text_dim: Option<String>,
    pub text_section: Option<String>,
    pub accent: Option<String>,
    pub border: Option<String>,
    pub foreground: Option<String>,
    pub background: Option<String>,
    pub black: Option<String>,
    pub red: Option<String>,
    pub green: Option<String>,
    pub yellow: Option<String>,
    pub blue: Option<String>,
    pub magenta: Option<String>,
    pub cyan: Option<String>,
    pub white: Option<String>,
    pub bright_black: Option<String>,
    pub bright_red: Option<String>,
    pub bright_green: Option<String>,
    pub bright_yellow: Option<String>,
    pub bright_blue: Option<String>,
    pub bright_magenta: Option<String>,
    pub bright_cyan: Option<String>,
    pub bright_white: Option<String>,
    pub bright_foreground: Option<String>,
}

impl ThemeConfig {
    /// `self` with every value that `other` sets taken from `other`.
    pub open spec fn overlaid(self, other: Self) -> Self {
        ThemeConfig {
            bg_darkest: pick(self.bg_darkest, other.bg_darkest),
            bg_sidebar: pick(self.bg_sidebar, other.bg_sidebar),
            bg_toolbar: pick(self.bg_toolbar, other.bg_toolbar),
            terminal_bg: pick(self.terminal_bg, other.terminal_bg),
            bg_hover: pick(self.bg_hover, other.bg_hover),
            bg_active: pick(self.bg_active, other.bg_active),
            text_primary: pick(self.text_primary, other.text_primary),
            text_dim: pick(self.text_dim, other.text_dim),
            text_section: pick(self.text_section, other.text_section),
            accent: pick(self.accent, other.accent),
            border: pick(self.border, other.border),
            foreground: pick(self.foreground, other.foreground),
            background: pick(self.background, other.background),
            black: pick(self.black, other.black),
            red: pick(self.red, other.red),
            green: pick(self.green, other.green),
            yellow: pick(self.yellow, other.yellow),
            blue: pick(self.blue, other.blue),
            magenta: pick(self.magenta, other.magenta),
            cyan: pick(self.cyan, other.cyan),
            white: pick(self.white, other.white),
            bright_black: pick(self.bright_black, other.bright_black),
            bright_red: pick(self.bright_red, other.bright_red),
            bright_green: pick(self.bright_green, other.bright_green),
            bright_yellow: pick(self.bright_yellow, other.bright_yellow),
            bright_blue: pick(self.bright_blue, other.bright_blue),
            bright_magenta: pick(self.bright_magenta, other.bright_magenta),
            bright_cyan: pick(self.bright_cyan, other.bright_cyan),
            bright_white: pick(self.bright_white, other.bright_white),
            bright_foreground: pick(self.bright_foreground, other.bright_foreground),
        }
    }

    /// Overlays `other` on `self`: each value `other` sets wins, nested tables
    /// are overlaid in turn, and what `other` leaves unset is kept.
    pub fn overlay(&mut self, other: Self)
        ensures
            *final(self) == old(self).overlaid(other),
    {
        self.bg_darkest = pick_opt(self.bg_darkest.take(), other.bg_darkest);
        self.bg_sidebar = pick_opt(self.bg_sidebar.take(), other.bg_sidebar);
        self.bg_toolbar = pick_opt(self.bg_toolbar.take(), other.bg_toolbar);
        self.terminal_bg = pick_opt(self.terminal_bg.take(), other.terminal_bg);
        self.bg_hover = pick_opt(self.bg_hover.take(), other.bg_hover);
        self.bg_active = pick_opt(self.bg_active.take(), other.bg_active);
        self.text_primary = pick_opt(self.text_primary.take(), other.text_primary);
        self.text_dim = pick_opt(self.text_dim.take(), other.text_dim);
        self.text_section = pick_opt(self.text_section.take(), other.text_section);
        self.accent = pick_opt(self.accent.take(), other.accent);
        self.border = pick_opt(self.border.take(), other.border);
        self.foreground = pick_opt(self.foreground.take(), other.foreground);
        self.background = pick_opt(self.background.take(), other.background);
        self.black = pick_opt(self.black.take(), other.black);
        self.red = pick_opt(self.red.take(), other.red);
        self.green = pick_opt(self.green.take(), other.green);
        self.yellow = pick_opt(self.yellow.take(), other.yellow);
        self.blue = pick_opt(self.blue.take(), other.blue);
        self.magenta = pick_opt(self.magenta.take(), other.magenta);
        self.cyan = pick_opt(self.cyan.take(), other.cyan);
        self.white = pick_opt(self.white.take(), other.white);
        self.bright_black = pick_opt(self.bright_black.take(), other.bright_black);
        self.bright_red = pick_opt(self.bright_red.take(), other.bright_red);
        self.bright_green = pick_opt(self.bright_green.take(), other.bright_green);
        self.bright_yellow = pick_opt(self.bright_yellow.take(), other.bright_yellow);
        self.bright_blue = pick_opt(self.bright_blue.take(), other.bright_blue);
        self.bright_magenta = pick_opt(self.bright_magenta.take(), other.bright_magenta);
        self.bright_cyan = pick_opt(self.bright_cyan.take(), other.bright_cyan);
        self.bright_white = pick_opt(self.bright_white.take(), other.bright_white);
        self.bright_foreground = pick_opt(self.bright_foreground.take(), other.bright_foreground);
    }
}

/// Voice configuration after profile and workspace merge; every field
/// defaults to absent, and voice is off unless `enabled` is set.
#[derive(Clone, Default)]
pub struct VoiceConfig {
    pub enabled: Option<bool>,
    pub tts: Option<VoiceTtsConfig>,
    pub agent: Option<VoiceAgentConfig>,
}

impl VoiceConfig {
    /// `self` with every value that `other` sets taken from `other`.
    pub open spec fn overlaid(self, other: Self) -> Self {
        VoiceConfig {
            enabled: pick(self.enabled, other.enabled),
            tts: match other.tts {
                Some(i) => match self.tts {
                    Some(e) => Some(e.overlaid(i)),
                    None => Some(i),
                },
                None => self.tts,
            },
            agent: match other.agent {
                Some(i) => match self.agent {
                    Some(e) => Some(e.overlaid(i)),
                    None => Some(i),
                },
                None => self.agent,
            },
        }
    }

    /// Overlays `other` on `self`: each value `other` sets wins, nested tables
    /// are overlaid in turn, and what `other` leaves unset is kept.
    pub fn overlay(&mut self, other: Self)
        ensures
            *final(self) == old(self).overlaid(other),
    {
        self.enabled = pick_opt(self.enabled.take(), other.enabled);
        match other.tts {
            Some(incoming) => match self.tts.take() {
                Some(mut existing) => {
                    existing.overlay(incoming);
                    self.tts = Some(existing);
                },
                None => {
                    self.tts = Some(incoming);
                },
            },
            None => {},
        }
        match other.agent {
            Some(incoming) => match self.agent.take() {
                Some(mut existing) => {
                    existing.overlay(incoming);
                    self.agent = Some(existing);
                },
                None => {
                    self.agent = Some(incoming);
                },
            },
            None => {},
        }
    }
}

/// Text-to-speech settings.
#[derive(Clone, Default)]
pub struct VoiceTtsConfig {
    pub provider: Option<String>,
    pub model: Option<String>,
    pub api_key_env: Option<String>,
}

impl VoiceTtsConfig {
    /// `self` with every value that `other` sets taken from `other`.
    pub open spec fn overlaid(self, other: Self) -> Self {
        VoiceTtsConfig {
            provider: pick(self.provider, other.provider),
            model: pick(self.model, other.model),
            api_key_env: pick(self.api_key_env, other.api_key_env),
        }
    }

    /// Overlays `other` on `self`: each value `other` sets wins, nested tables
    /// are overlaid in turn, and what `other` leaves unset is kept.
    pub fn overlay(&mut self, other: Self)
        ensures
            *final(self) == old(self).overlaid(other),
    {
        self.provider = pick_opt(self.provider.take(), other.provider);
        self.model = pick_opt(self.model.take(), other.model);
        self.api_key_env = pick_opt(self.api_key_env.take(), other.api_key_env);
    }
}

/// Voice agent settings.
#[derive(Clone, Default)]
pub struct VoiceAgentConfig {
    pub tier: Option<String>,
    pub system_prompt: Option<String>,
}

impl VoiceAgentConfig {
    /// `self` with every value that `other` sets taken from `other`.
    pub open spec fn overlaid(self, other: Self) -> Self {
        VoiceAgentConfig {
            tier: pick(self.tier, other.tier),
            system_prompt: pick(self.system_prompt, other.system_prompt),
        }
    }

    /// Overlays `other` on `self`: each value `other` sets wins, nested tables
    /// are overlaid in turn, and what `other` leaves unset is kept.
    pub fn overlay(&mut self, other: Self)
        ensures
            *final(self) == old(self).overlaid(other),
    {
        self.tier = pick_opt(self.tier.take(), other.tier);
        self.system_prompt = pick_opt(self.system_prompt.take(), other.system_prompt);
    }
}

/// The quick-note modal's destinations.
#[derive(Clone, Default)]
pub struct QuickNoteConfig {
    pub destinations: Vec<QuickNoteDestinationConfig>,
}

impl QuickNoteConfig {
    /// `self` with every value that `other` sets taken from `other`.
    pub open spec fn overlaid(self, other: Self) -> Self {
        QuickNoteConfig {
            destinations: if other.destinations@.len() > 0 {
                other.destinations
            } else {
                self.destinations
            },
        }
    }

    /// Overlays `other` on `self`: each value `other` sets wins, nested tables
    /// are overlaid in turn, and what `other` leaves unset is kept.
    pub fn overlay(&mut self, other: Self)
        ensures
            *final(self) == old(self).overlaid(other),
    {
        if !other.destinations.is_empty() {
            self.destinations = other.destinations;
        }
    }
}

/// A destination of the quick-note modal; one with `options` is a submenu.
#[derive(Clone)]
pub struct QuickNoteDestinationConfig {
    pub key: u8,
    pub label: String,
    pub dest_type: Option<String>,
    pub path: Option<String>,
    pub command: Option<String>,
    pub position: Option<String>,
    pub options: Option<Vec<QuickNoteSubOptionConfig>>,
}

/// An entry of a quick-note submenu.
#[derive(Clone)]
pub struct QuickNoteSubOptionConfig {
    pub key: u8,
    pub label: String,
    pub command: String,
    pub position: Option<String>,
}

/// A log verbosity threshold.
#[derive(Debug, Clone, Copy, PartialEq, Eq, Structural)]
pub enum LevelFilter {
    Off,
    Error,
    Warn,
    Info,
    Debug,
    Trace,
}

/// The threshold a `level` string names: `error`, `warn`, `info` or `debug`;
/// anything else, or no string, names none.
pub open spec fn spec_level_filter(level: Option<Seq<char>>) -> Option<LevelFilter> {
    match level {
        Some(l) => if l == "error"@ {
            Some(LevelFilter::Error)
        } else if l == "warn"@ {
            Some(LevelFilter::Warn)
        } else if l == "info"@ {
            Some(LevelFilter::Info)
        } else if l == "debug"@ {
            Some(LevelFilter::Debug)
        } else {
            None
        },
        None => None,
    }
}

impl LogConfig {
    /// The threshold `level` names; unset or unknown levels give `None`.
    pub fn level_filter(&self) -> (r: Option<LevelFilter>)
        ensures
            r == spec_level_filter(opt_text(self.level)),
    {
        match &self.level {
            Some(l) => {
                let c = chars_of(l.as_str());
                if eq_lit(&c, "error") {
                    Some(LevelFilter::Error)
                } else if eq_lit(&c, "warn") {
                    Some(LevelFilter::Warn)
                } else if eq_lit(&c, "info") {
                    Some(LevelFilter::Info)
                } else if eq_lit(&c, "debug") {
                    Some(LevelFilter::Debug)
                } else {
                    None
                }
            },
            None => None,
        }
    }
}

impl VoiceConfig {
    /// Voice is on only when `enabled` is set to true.
    pub fn is_enabled(&self) -> (r: bool)
        ensures
            r == (self.enabled == Some(true)),
    {
        match self.enabled {
            Some(b) => b,
            None => false,
        }
    }
}

/// The profile a `--profile` value selects: none for no value, an empty one,
/// or `default` (binary-name detection then decides); the name otherwise.
pub fn profile_override(name: Option<String>) -> (r: Option<String>)
    ensures
        match name {
            Some(n) => if n@.len() == 0 || n@ == "default"@ {
                r is None
            } else {
                r == Some(n)
            },
            None => r is None,
        },
{
    match name {
        Some(n) => {
            let c = chars_of(n.as_str());
            if c.len() == 0 || eq_lit(&c, "default") {
                None
            } else {
                Some(n)
            }
        },
        None => None,
    }
}

/// Overlaying keybindings: every binding the overlaid (workspace) table sets
/// wins over the profile's.
pub proof fn lemma_keybindings_overlay_set_wins(a: KeybindingsConfig, b: KeybindingsConfig)
    ensures
        b.quit is Some ==> a.overlaid(b).quit == b.quit,
        b.close_pane is Some ==> a.overlaid(b).close_pane == b.close_pane,
        b.toggle_command_palette is Some ==> a.overlaid(b).toggle_command_palette == b.toggle_command_palette,
        b.split_horizontal is Some ==> a.overlaid(b).split_horizontal == b.split_horizontal,
        b.split_vertical is Some ==> a.overlaid(b).split_vertical == b.split_vertical,
        b.split_right is Some ==> a.overlaid(b).split_right == b.split_right,
        b.split_down is Some ==> a.overlaid(b).split_down == b.split_down,
        b.swap_pane_left is Some ==> a.overlaid(b).swap_pane_left == b.swap_pane_left,
        b.swap_pane_down is Some ==> a.overlaid(b).swap_pane_down == b.swap_pane_down,
        b.swap_pane_up is Some ==> a.overlaid(b).swap_pane_up == b.swap_pane_up,
        b.swap_pane_right is Some ==> a.overlaid(b).swap_pane_right == b.swap_pane_right,
        b.navigate_left is Some ==> a.overlaid(b).navigate_left == b.navigate_left,
        b.navigate_down is Some ==> a.overlaid(b).navigate_down == b.navigate_down,
        b.navigate_up is Some ==> a.overlaid(b).navigate_up == b.navigate_up,
        b.navigate_right is Some ==> a.overlaid(b).navigate_right == b.navigate_right,
        b.new_tab is Some ==> a.overlaid(b).new_tab == b.new_tab,
        b.next_tab is Some ==> a.overlaid(b).next_tab == b.next_tab,
        b.prev_tab is Some ==> a.overlaid(b).prev_tab == b.prev_tab,
        b.first_tab is Some ==> a.overlaid(b).first_tab == b.first_tab,
        b.last_tab is Some ==> a.overlaid(b).last_tab == b.last_tab,
        b.nav_back is Some ==> a.overlaid(b).nav_back == b.nav_back,
        b.toggle_sidebar is Some ==> a.overlaid(b).toggle_sidebar == b.toggle_sidebar,
        b.toggle_zoom is Some ==> a.overlaid(b).toggle_zoom == b.toggle_zoom,
        b.toggle_shortcuts is Some ==> a.overlaid(b).toggle_shortcuts == b.toggle_shortcuts,
        b.rename_context is Some ==> a.overlaid(b).rename_context == b.rename_context,
        b.rename_pane is Some ==> a.overlaid(b).rename_pane == b.rename_pane,
        b.new_context is Some ==> a.overlaid(b).new_context == b.new_context,
        b.new_page_right is Some ==> a.overlaid(b).new_page_right == b.new_page_right,
        b.toggle_minimap is Some ==> a.overlaid(b).toggle_minimap == b.toggle_minimap,
        b.scroll_up is Some ==> a.overlaid(b).scroll_up == b.scroll_up,
        b.scroll_down is Some ==> a.overlaid(b).scroll_down == b.scroll_down,
        b.increase_font_size is Some ==> a.overlaid(b).increase_font_size == b.increase_font_size,
        b.decrease_font_size is Some ==> a.overlaid(b).decrease_font_size == b.decrease_font_size,
        b.open_file_browser is Some ==> a.overlaid(b).open_file_browser == b.open_file_browser,
        b.open_quick_note is Some ==> a.overlaid(b).open_quick_note == b.open_quick_note,
        b.open_config is Some ==> a.overlaid(b).open_config == b.open_config,
        b.reload_config is Some ==> a.overlaid(b).reload_config == b.reload_config,
        b.open_secrets_manager is Some ==> a.overlaid(b).open_secrets_manager == b.open_secrets_manager,
        b.force_reload_app is Some ==> a.overlaid(b).force_reload_app == b.force_reload_app,
        b.toggle_notification_modal is Some ==> a.overlaid(b).toggle_notification_modal == b.toggle_notification_modal,
{
}

/// Overlaying keybindings: every binding the overlaid table leaves unset
/// keeps the profile's.
pub proof fn lemma_keybindings_overlay_unset_keeps(a: KeybindingsConfig, b: KeybindingsConfig)
    ensures
        b.quit is None ==> a.overlaid(b).quit == a.quit,
        b.close_pane is None ==> a.overlaid(b).close_pane == a.close_pane,
        b.toggle_command_palette is None ==> a.overlaid(b).toggle_command_palette == a.toggle_command_palette,
        b.split_horizontal is None ==> a.overlaid(b).split_horizontal == a.split_horizontal,
        b.split_vertical is None ==> a.overlaid(b).split_vertical == a.split_vertical,
        b.split_right is None ==> a.overlaid(b).split_right == a.split_right,
        b.split_down is None ==> a.overlaid(b).split_down == a.split_down,
        b.swap_pane_left is None ==> a.overlaid(b).swap_pane_left == a.swap_pane_left,
        b.swap_pane_down is None ==> a.overlaid(b).swap_pane_down == a.swap_pane_down,
        b.swap_pane_up is None ==> a.overlaid(b).swap_pane_up == a.swap_pane_up,
        b.swap_pane_right is None ==> a.overlaid(b).swap_pane_right == a.swap_pane_right,
        b.navigate_left is None ==> a.overlaid(b).navigate_left == a.navigate_left,
        b.navigate_down is None ==> a.overlaid(b).navigate_down == a.navigate_down,
        b.navigate_up is None ==> a.overlaid(b).navigate_up == a.navigate_up,
        b.navigate_right is None ==> a.overlaid(b).navigate_right == a.navigate_right,
        b.new_tab is None ==> a.overlaid(b).new_tab == a.new_tab,
        b.next_tab is None ==> a.overlaid(b).next_tab == a.next_tab,
        b.prev_tab is None ==> a.overlaid(b).prev_tab == a.prev_tab,
        b.first_tab is None ==> a.overlaid(b).first_tab == a.first_tab,
        b.last_tab is None ==> a.overlaid(b).last_tab == a.last_tab,
        b.nav_back is None ==> a.overlaid(b).nav_back == a.nav_back,
        b.toggle_sidebar is None ==> a.overlaid(b).toggle_sidebar == a.toggle_sidebar,
        b.toggle_zoom is None ==> a.overlaid(b).toggle_zoom == a.toggle_zoom,
        b.toggle_shortcuts is None ==> a.overlaid(b).toggle_shortcuts == a.toggle_shortcuts,
        b.rename_context is None ==> a.overlaid(b).rename_context == a.rename_context,
        b.rename_pane is None ==> a.overlaid(b).rename_pane == a.rename_pane,
        b.new_context is None ==> a.overlaid(b).new_context == a.new_context,
        b.new_page_right is None ==> a.overlaid(b).new_page_right == a.new_page_right,
        b.toggle_minimap is None ==> a.overlaid(b).toggle_minimap == a.toggle_minimap,
        b.scroll_up is None ==> a.overlaid(b).scroll_up == a.scroll_up,
        b.scroll_down is None ==> a.overlaid(b).scroll_down == a.scroll_down,
        b.increase_font_size is None ==> a.overlaid(b).increase_font_size == a.increase_font_size,
        b.decrease_font_size is None ==> a.overlaid(b).decrease_font_size == a.decrease_font_size,
        b.open_file_browser is None ==> a.overlaid(b).open_file_browser == a.open_file_browser,
        b.open_quick_note is None ==> a.overlaid(b).open_quick_note == a.open_quick_note,
        b.open_config is None ==> a.overlaid(b).open_config == a.open_config,
        b.reload_config is None ==> a.overlaid(b).reload_config == a.reload_config,
        b.open_secrets_manager is None ==> a.overlaid(b).open_secrets_manager == a.open_secrets_manager,
        b.force_reload_app is None ==> a.overlaid(b).force_reload_app == a.force_reload_app,
        b.toggle_notification_modal is None ==> a.overlaid(b).toggle_notification_modal == a.toggle_notification_modal,
{
}


/// Overlaying a AiConfig: what the overlaid (workspace) table sets wins, a
/// nested table it sets where the profile has none is taken whole, and what
/// it leaves unset keeps the profile's.
pub proof fn lemma_ai_config_overlay_fields(a: AiConfig, b: AiConfig)
    ensures
        b.backend is Some ==> a.overlaid(b).backend == b.backend,
        b.backend is None ==> a.overlaid(b).backend == a.backend,
        b.openrouter is None ==> a.overlaid(b).openrouter == a.openrouter,
        b.openrouter is Some && a.openrouter is None ==> a.overlaid(b).openrouter == b.openrouter,
        b.ollama is None ==> a.overlaid(b).ollama == a.ollama,
        b.ollama is Some && a.ollama is None ==> a.overlaid(b).ollama == b.ollama,
{
}

/// Overlaying a OpenRouterBackendConfig: what the overlaid (workspace) table sets wins, a
/// nested table it sets where the profile has none is taken whole, and what
/// it leaves unset keeps the profile's.
pub proof fn lemma_open_router_backend_config_overlay_fields(a: OpenRouterBackendConfig, b: OpenRouterBackendConfig)
    ensures
        b.api_key_env is Some ==> a.overlaid(b).api_key_env == b.api_key_env,
        b.api_key_env is None ==> a.overlaid(b).api_key_env == a.api_key_env,
        b.model_low is Some ==> a.overlaid(b).model_low == b.model_low,
        b.model_low is None ==> a.overlaid(b).model_low == a.model_low,
        b.model_medium is Some ==> a.overlaid(b).model_medium == b.model_medium,
        b.model_medium is None ==> a.overlaid(b).model_medium == a.model_medium,
        b.model_high is Some ==> a.overlaid(b).model_high == b.model_high,
        b.model_high is None ==> a.overlaid(b).model_high == a.model_high,
{
}

/// Overlaying a OllamaBackendConfig: what the overlaid (workspace) table sets wins, a
/// nested table it sets where the profile has none is taken whole, and what
/// it leaves unset keeps the profile's.
pub proof fn lemma_ollama_backend_config_overlay_fields(a: OllamaBackendConfig, b: OllamaBackendConfig)
    ensures
        b.host is Some ==> a.overlaid(b).host == b.host,
        b.host is None ==> a.overlaid(b).host == a.host,
        b.model_low is Some ==> a.overlaid(b).model_low == b.model_low,
        b.model_low is None ==> a.overlaid(b).model_low == a.model_low,
        b.model_medium is Some ==> a.overlaid(b).model_medium == b.model_medium,
        b.model_medium is None ==> a.overlaid(b).model_medium == a.model_medium,
        b.model_high is Some ==> a.overlaid(b).model_high == b.model_high,
        b.model_high is None ==> a.overlaid(b).model_high == a.model_high,
{
}

/// Overlaying a NotificationsConfig: what the overlaid (workspace) table sets wins, a
/// nested table it sets where the profile has none is taken whole, and what
/// it leaves unset keeps the profile's.
pub proof fn lemma_notifications_config_overlay_fields(a: NotificationsConfig, b: NotificationsConfig)
    ensures
        b.enabled is Some ==> a.overlaid(b).enabled == b.enabled,
        b.enabled is None ==> a.overlaid(b).enabled == a.enabled,
        b.focus_mode is Some ==> a.overlaid(b).focus_mode == b.focus_mode,
        b.focus_mode is None ==> a.overlaid(b).focus_mode == a.focus_mode,
        b.interrupt_threshold is Some ==> a.overlaid(b).interrupt_threshold == b.interrupt_threshold,
        b.interrupt_threshold is None ==> a.overlaid(b).interrupt_threshold == a.interrupt_threshold,
{
}

/// Overlaying a LogConfig: what the overlaid (workspace) table sets wins, a
/// nested table it sets where the profile has none is taken whole, and what
/// it leaves unset keeps the profile's.
pub proof fn lemma_log_config_overlay_fields(a: LogConfig, b: LogConfig)
    ensures
        b.level is Some ==> a.overlaid(b).level == b.level,
        b.level is None ==> a.overlaid(b).level == a.level,
        b.retention_days is Some ==> a.overlaid(b).retention_days == b.retention_days,
        b.retention_days is None ==> a.overlaid(b).retention_days == a.retention_days,
{
}

/// Overlaying a BetaConfig: what the overlaid (workspace) table sets wins, a
/// nested table it sets where the profile has none is taken whole, and what
/// it leaves unset keeps the profile's.
pub proof fn lemma_beta_config_overlay_fields(a: BetaConfig, b: BetaConfig)
    ensures
        b.crt is Some ==> a.overlaid(b).crt == b.crt,
        b.crt is None ==> a.overlaid(b).crt == a.crt,
        b.ghost_mode is Some ==> a.overlaid(b).ghost_mode == b.ghost_mode,
        b.ghost_mode is None ==> a.overlaid(b).ghost_mode == a.ghost_mode,
{
}

/// Overlaying a ThemeConfig: what the overlaid (workspace) table sets wins, a
/// nested table it sets where the profile has none is taken whole, and what
/// it leaves unset keeps the profile's.
pub proof fn lemma_theme_config_overlay_fields(a: ThemeConfig, b: ThemeConfig)
    ensures
        b.bg_darkest is Some ==> a.overlaid(b).bg_darkest == b.bg_darkest,
        b.bg_darkest is None ==> a.overlaid(b).bg_darkest == a.bg_darkest,
        b.bg_sidebar is Some ==> a.overlaid(b).bg_sidebar == b.bg_sidebar,
        b.bg_sidebar is None ==> a.overlaid(b).bg_sidebar == a.bg_sidebar,
        b.bg_toolbar is Some ==> a.overlaid(b).bg_toolbar == b.bg_toolbar,
        b.bg_toolbar is None ==> a.overlaid(b).bg_toolbar == a.bg_toolbar,
        b.terminal_bg is Some ==> a.overlaid(b).terminal_bg == b.terminal_bg,
        b.terminal_bg is None ==> a.overlaid(b).terminal_bg == a.terminal_bg,
        b.bg_hover is Some ==> a.overlaid(b).bg_hover == b.bg_hover,
        b.bg_hover is None ==> a.overlaid(b).bg_hover == a.bg_hover,
        b.bg_active is Some ==> a.overlaid(b).bg_active == b.bg_active,
        b.bg_active is None ==> a.overlaid(b).bg_active == a.bg_active,
        b.text_primary is Some ==> a.overlaid(b).text_primary == b.text_primary,
        b.text_primary is None ==> a.overlaid(b).text_primary == a.text_primary,
        b.text_dim is Some ==> a.overlaid(b).text_dim == b.text_dim,
        b.text_dim is None ==> a.overlaid(b).text_dim == a.text_dim,
        b.text_section is Some ==> a.overlaid(b).text_section == b.text_section,
        b.text_section is None ==> a.overlaid(b).text_section == a.text_section,
        b.accent is Some ==> a.overlaid(b).accent == b.accent,
        b.accent is None ==> a.overlaid(b).accent == a.accent,
        b.border is Some ==> a.overlaid(b).border == b.border,
        b.border is None ==> a.overlaid(b).border == a.border,
        b.foreground is Some ==> a.overlaid(b).foreground == b.foreground,
        b.foreground is None ==> a.overlaid(b).foreground == a.foreground,
        b.background is Some ==> a.overlaid(b).background == b.background,
        b.background is None ==> a.overlaid(b).background == a.background,
        b.black is Some ==> a.overlaid(b).black == b.black,
        b.black is None ==> a.overlaid(b).black == a.black,
        b.red is Some ==> a.overlaid(b).red == b.red,
        b.red is None ==> a.overlaid(b).red == a.red,
        b.green is Some ==> a.overlaid(b).green == b.green,
        b.green is None ==> a.overlaid(b).green == a.green,
        b.yellow is Some ==> a.overlaid(b).yellow == b.yellow,
        b.yellow is None ==> a.overlaid(b).yellow == a.yellow,
        b.blue is Some ==> a.overlaid(b).blue == b.blue,
        b.blue is None ==> a.overlaid(b).blue == a.blue,
        b.magenta is Some ==> a.overlaid(b).magenta == b.magenta,
        b.magenta is None ==> a.overlaid(b).magenta == a.magenta,
        b.cyan is Some ==> a.overlaid(b).cyan == b.cyan,
        b.cyan is None ==> a.overlaid(b).cyan == a.cyan,
        b.white is Some ==> a.overlaid(b).white == b.white,
        b.white is None ==> a.overlaid(b).white == a.white,
        b.bright_black is Some ==> a.overlaid(b).bright_black == b.bright_black,
        b.bright_black is None ==> a.overlaid(b).bright_black == a.bright_black,
        b.bright_red is Some ==> a.overlaid(b).bright_red == b.bright_red,
        b.bright_red is None ==> a.overlaid(b).bright_red == a.bright_red,
        b.bright_green is Some ==> a.overlaid(b).bright_green == b.bright_green,
        b.bright_green is None ==> a.overlaid(b).bright_green == a.bright_green,
        b.bright_yellow is Some ==> a.overlaid(b).bright_yellow == b.bright_yellow,
        b.bright_yellow is None ==> a.overlaid(b).bright_yellow == a.bright_yellow,
        b.bright_blue is Some ==> a.overlaid(b).bright_blue == b.bright_blue,
        b.bright_blue is None ==> a.overlaid(b).bright_blue == a.bright_blue,
        b.bright_magenta is Some ==> a.overlaid(b).bright_magenta == b.bright_magenta,
        b.bright_magenta is None ==> a.overlaid(b).bright_magenta == a.bright_magenta,
        b.bright_cyan is Some ==> a.overlaid(b).bright_cyan == b.bright_cyan,
        b.bright_cyan is None ==> a.overlaid(b).bright_cyan == a.bright_cyan,
        b.bright_white is Some ==> a.overlaid(b).bright_white == b.bright_white,
        b.bright_white is None ==> a.overlaid(b).bright_white == a.bright_white,
        b.bright_foreground is Some ==> a.overlaid(b).bright_foreground == b.bright_foreground,
        b.bright_foreground is None ==> a.overlaid(b).bright_foreground == a.bright_foreground,
{
}

/// Overlaying a VoiceConfig: what the overlaid (workspace) table sets wins, a
/// nested table it sets where the profile has none is taken whole, and what
/// it leaves unset keeps the profile's.
pub proof fn lemma_voice_config_overlay_fields(a: VoiceConfig, b: VoiceConfig)
    ensures
        b.enabled is Some ==> a.overlaid(b).enabled == b.enabled,
        b.enabled is None ==> a.overlaid(b).enabled == a.enabled,
        b.tts is None ==> a.overlaid(b).tts == a.tts,
        b.tts is Some && a.tts is None ==> a.overlaid(b).tts == b.tts,
        b.agent is None ==> a.overlaid(b).agent == a.agent,
        b.agent is Some && a.agent is None ==> a.overlaid(b).agent == b.agent,
{
}

/// Overlaying a VoiceTtsConfig: what the overlaid (workspace) table sets wins, a
/// nested table it sets where the profile has none is taken whole, and what
/// it leaves unset keeps the profile's.
pub proof fn lemma_voice_tts_config_overlay_fields(a: VoiceTtsConfig, b: VoiceTtsConfig)
    ensures
        b.provider is Some ==> a.overlaid(b).provider == b.provider,
        b.provider is None ==> a.overlaid(b).provider == a.provider,
        b.model is Some ==> a.overlaid(b).model == b.model,
        b.model is None ==> a.overlaid(b).model == a.model,
        b.api_key_env is Some ==> a.overlaid(b).api_key_env == b.api_key_env,
        b.api_key_env is None ==> a.overlaid(b).api_key_env == a.api_key_env,
{
}

/// Overlaying a VoiceAgentConfig: what the overlaid (workspace) table sets wins, a
/// nested table it sets where the profile has none is taken whole, and what
/// it leaves unset keeps the profile's.
pub proof fn lemma_voice_agent_config_overlay_fields(a: VoiceAgentConfig, b: VoiceAgentConfig)
    ensures
        b.tier is Some ==> a.overlaid(b).tier == b.tier,
        b.tier is None ==> a.overlaid(b).tier == a.tier,
        b.system_prompt is Some ==> a.overlaid(b).system_prompt == b.system_prompt,
        b.system_prompt is None ==> a.overlaid(b).system_prompt == a.system_prompt,
{
}

/// Overlaying quick-note settings: a non-empty destination list replaces the
/// profile's whole; an empty one keeps it.
pub proof fn lemma_quick_note_overlay_destinations(a: QuickNoteConfig, b: QuickNoteConfig)
    ensures
        b.destinations@.len() > 0 ==> a.overlaid(b).destinations == b.destinations,
        b.destinations@.len() == 0 ==> a.overlaid(b).destinations == a.destinations,
{
}

/// Overlaying a configuration on itself changes nothing.
pub proof fn lemma_ai_overlay_idempotent(c: AiConfig)
    ensures
        c.overlaid(c) == c,
{
}

/// Overlaying an AI table that sets nothing changes nothing.
pub proof fn lemma_ai_overlay_unset(c: AiConfig)
    ensures
        c.overlaid(AiConfig { backend: None, openrouter: None, ollama: None }) == c,
{
}

/// Overlaying a configuration on itself changes nothing.
pub proof fn lemma_voice_overlay_idempotent(c: VoiceConfig)
    ensures
        c.overlaid(c) == c,
{
}

/// Overlaying a voice table that sets nothing changes nothing.
pub proof fn lemma_voice_overlay_unset(c: VoiceConfig)
    ensures
        c.overlaid(VoiceConfig { enabled: None, tts: None, agent: None }) == c,
{
}

/// Overlaying `b` then `c` is overlaying `b` overlaid with `c`.
pub proof fn lemma_log_overlay_assoc(a: LogConfig, b: LogConfig, c: LogConfig)
    ensures
        a.overlaid(b).overlaid(c) == a.overlaid(b.overlaid(c)),
{
}


// ── profile directory ───────────────────────────────────────────────────────

/// `s` without every leading copy of `p` (`str::trim_start_matches`).
pub open spec fn trim_start_matches(s: Seq<char>, p: Seq<char>) -> Seq<char>
    decreases s.len(),
{
    if p.len() > 0 && starts_with(s, p) {
        trim_start_matches(s.skip(p.len() as int), p)
    } else {
        s
    }
}

fn trim_plexi_prefix(s: &Vec<char>) -> (r: Vec<char>)
    ensures
        r@ == trim_start_matches(s@, "plexi-"@),
{
    let p = chars_of("plexi-");
    let mut cur = slice_of(s, 0, s.len());
    assert(cur@ =~= s@);
    while crate::text::matches_at(&cur, 0, &p) && p.len() > 0
        invariant
            p@ == "plexi-"@,
            trim_start_matches(cur@, p@) == trim_start_matches(s@, p@),
        decreases cur@.len(),
    {
        proof {
            assert(cur@.skip(0) == cur@);
        }
        cur = slice_of(&cur, p.len(), cur.len());
    }
    proof {
        assert(cur@.skip(0) == cur@);
    }
    cur
}

/// The build channel a binary name shows: `alpha`, `beta`, the PR name
/// (`pr-<n>`, without leading `plexi-`s), `v3`, tested in that order; none
/// for a stable build.
pub open spec fn spec_build_channel(binary: Seq<char>) -> Option<Seq<char>> {
    if contains_text(binary, "alpha"@) {
        Some("alpha"@)
    } else if contains_text(binary, "beta"@) {
        Some("beta"@)
    } else if contains_text(binary, "pr-"@) {
        Some(trim_start_matches(binary, "plexi-"@))
    } else if contains_text(binary, "v3"@) {
        Some("v3"@)
    } else {
        None
    }
}

pub fn build_channel_from(binary: &str) -> (r: Option<String>)
    ensures
        opt_text(r) == spec_build_channel(binary@),
{
    let b = chars_of(binary);
    if contains_lit_text(&b, "alpha") {
        Some("alpha".to_owned())
    } else if contains_lit_text(&b, "beta") {
        Some("beta".to_owned())
    } else if contains_lit_text(&b, "pr-") {
        let t = trim_plexi_prefix(&b);
        Some(string_of(&t))
    } else if contains_lit_text(&b, "v3") {
        Some("v3".to_owned())
    } else {
        None
    }
}

/// The profile directory's name: `.plexi-<profile>` for an explicit profile;
/// else by the binary name, `.plexi-alpha`, `.plexi-beta`, `.plexi-v3`, or
/// `.plexi-<name without leading plexi->` for a PR build, tested in that
/// order; else `.plexi`.
pub open spec fn spec_config_dir_name(profile: Option<Seq<char>>, binary: Option<Seq<char>>) -> Seq<char> {
    match profile {
        Some(p) => ".plexi-"@ + p,
        None => match binary {
            Some(b) => if contains_text(b, "alpha"@) {
                ".plexi-alpha"@
            } else if contains_text(b, "beta"@) {
                ".plexi-beta"@
            } else if contains_text(b, "v3"@) {
                ".plexi-v3"@
            } else if contains_text(b, "pr-"@) {
                ".plexi-"@ + trim_start_matches(b, "plexi-"@)
            } else {
                ".plexi"@
            },
            None => ".plexi"@,
        },
    }
}

pub fn config_dir_name_for(profile: Option<&str>, binary: Option<&str>) -> (r: String)
    ensures
        r@ == spec_config_dir_name(
            match profile {
                Some(p) => Some(p@),
                None => None,
            },
            match binary {
                Some(b) => Some(b@),
                None => None,
            },
        ),
{
    let mut out: Vec<char> = Vec::new();
    match profile {
        Some(p) => {
            push_lit(&mut out, ".plexi-");
            push_lit(&mut out, p);
            return string_of(&out);
        },
        None => {},
    }
    match binary {
        Some(bs) => {
            let b = chars_of(bs);
            if contains_lit_text(&b, "alpha") {
                ".plexi-alpha".to_owned()
            } else if contains_lit_text(&b, "beta") {
                ".plexi-beta".to_owned()
            } else if contains_lit_text(&b, "v3") {
                ".plexi-v3".to_owned()
            } else if contains_lit_text(&b, "pr-") {
                push_lit(&mut out, ".plexi-");
                let t = trim_plexi_prefix(&b);
                push_all(&mut out, &t);
                string_of(&out)
            } else {
                ".plexi".to_owned()
            }
        },
        None => ".plexi".to_owned(),
    }
}

} // verus!
