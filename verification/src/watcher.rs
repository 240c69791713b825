//! Slayer-session bookkeeping: the drop counters of a Voidgloom session,
//! how a chat line updates them, and the paths the session files live at.
use vstd::prelude::*;

use vstd::string::StringExecFns;

use crate::text::chars_vec;
use crate::text::contains_chars;
use crate::text::contains_spec;
use crate::text::replace_chars;
use crate::text::replace_spec;

verus! {

/// Counters of one Voidgloom Seraph slaying session.
#[derive(Clone, Copy, Debug, PartialEq, Eq, Structural)]
pub struct VoidgloomData {
    pub start_time: u128,
    pub end_time: u128,
    pub bosses_done: i32,
    pub twilight_arrow_poisons: i32,
    pub endersnake_runes: i32,
    pub summoning_eyes: i32,
    pub mana_steals: i32,
    pub transmission_tuners: i32,
    pub null_atoms: i32,
    pub hazmat_endermans: i32,
    pub espressos: i32,
    pub smarty_pants: i32,
    pub end_runes: i32,
    pub handy_blood_chalices: i32,
    pub sinful_dices: i32,
    pub artifact_upgraders: i32,
    pub etherwarp_mergers: i32,
    pub void_conqueror_skins: i32,
    pub judgement_cores: i32,
    pub enchant_runes: i32,
    pub ender_slayer_tier_sevens: i32,
}

impl Default for VoidgloomData {
    /// A fresh session: every counter at zero.
    fn default() -> (d: VoidgloomData)
        ensures
            d == VoidgloomData::zeroed(),
    {
        VoidgloomData {
            start_time: 0,
            end_time: 0,
            bosses_done: 0,
            twilight_arrow_poisons: 0,
            endersnake_runes: 0,
            summoning_eyes: 0,
            mana_steals: 0,
            transmission_tuners: 0,
            null_atoms: 0,
            hazmat_endermans: 0,
            espressos: 0,
            smarty_pants: 0,
            end_runes: 0,
            handy_blood_chalices: 0,
            sinful_dices: 0,
            artifact_upgraders: 0,
            etherwarp_mergers: 0,
            void_conqueror_skins: 0,
            judgement_cores: 0,
            enchant_runes: 0,
            ender_slayer_tier_sevens: 0,
        }
    }
}

impl VoidgloomData {
    /// The all-zero session data.
    pub open spec fn zeroed() -> VoidgloomData {
        VoidgloomData {
            start_time: 0,
            end_time: 0,
            bosses_done: 0,
            twilight_arrow_poisons: 0,
            endersnake_runes: 0,
            summoning_eyes: 0,
            mana_steals: 0,
            transmission_tuners: 0,
            null_atoms: 0,
            hazmat_endermans: 0,
            espressos: 0,
            smarty_pants: 0,
            end_runes: 0,
            handy_blood_chalices: 0,
            sinful_dices: 0,
            artifact_upgraders: 0,
            etherwarp_mergers: 0,
            void_conqueror_skins: 0,
            judgement_cores: 0,
            enchant_runes: 0,
            ender_slayer_tier_sevens: 0,
        }
    }

    /// Every counter still has room for one more drop.
    pub open spec fn counters_ok(self) -> bool {
        &&& self.bosses_done < i32::MAX
        &&& self.twilight_arrow_poisons < i32::MAX
        &&& self.endersnake_runes < i32::MAX
        &&& self.summoning_eyes < i32::MAX
        &&& self.mana_steals < i32::MAX
        &&& self.transmission_tuners < i32::MAX
        &&& self.null_atoms < i32::MAX
        &&& self.hazmat_endermans < i32::MAX
        &&& self.espressos < i32::MAX
        &&& self.smarty_pants < i32::MAX
        &&& self.end_runes < i32::MAX
        &&& self.handy_blood_chalices < i32::MAX
        &&& self.sinful_dices < i32::MAX
        &&& self.artifact_upgraders < i32::MAX
        &&& self.etherwarp_mergers < i32::MAX
        &&& self.void_conqueror_skins < i32::MAX
        &&& self.judgement_cores < i32::MAX
        &&& self.enchant_runes < i32::MAX
        &&& self.ender_slayer_tier_sevens < i32::MAX
    }
}

/// Whether the line announces a Summoning Eye drop: a DROP! marker (with
/// doubled spaces collapsed) naming the eye, that is not a plain rare
/// drop (which zealot-dropped eyes announce as).
pub open spec fn summoning_eye_line(line: Seq<char>) -> bool {
    &&& contains_spec(
        replace_spec(line, "DROP!  "@, "DROP! "@),
        "DROP! (Summoning Eye)"@,
    )
    &&& (!contains_spec(line, "RARE DROP!"@) || contains_spec(line, "VERY RARE DROP!"@)
        || contains_spec(line, "CRAZY RARE DROP!"@))
}

/// How one chat line updates the session counters: the first matching
/// drop name wins, quest completions count bosses.
pub open spec fn data_update(d: VoidgloomData, line: Seq<char>) -> VoidgloomData {
    if contains_spec(line, "SLAYER QUEST COMPLETE!"@) {
        VoidgloomData { bosses_done: (d.bosses_done + 1) as i32, ..d }
    } else if contains_spec(line, "Twilight Arrow Poison"@) {
        VoidgloomData { twilight_arrow_poisons: (d.twilight_arrow_poisons + 1) as i32, ..d }
    } else if contains_spec(line, "Endersnake Rune"@) {
        VoidgloomData { endersnake_runes: (d.endersnake_runes + 1) as i32, ..d }
    } else if summoning_eye_line(line) {
        VoidgloomData { summoning_eyes: (d.summoning_eyes + 1) as i32, ..d }
    } else if contains_spec(line, "Mana Steal I"@) {
        VoidgloomData { mana_steals: (d.mana_steals + 1) as i32, ..d }
    } else if contains_spec(line, "Transmission Tuner"@) {
        VoidgloomData { transmission_tuners: (d.transmission_tuners + 1) as i32, ..d }
    } else if contains_spec(line, "Null Atom"@) {
        VoidgloomData { null_atoms: (d.null_atoms + 1) as i32, ..d }
    } else if contains_spec(line, "Hazmat Enderman"@) {
        VoidgloomData { hazmat_endermans: (d.hazmat_endermans + 1) as i32, ..d }
    } else if contains_spec(line, "Pocket Espresso Machine"@) {
        VoidgloomData { espressos: (d.espressos + 1) as i32, ..d }
    } else if contains_spec(line, "Smarty Pants I"@) {
        VoidgloomData { smarty_pants: (d.smarty_pants + 1) as i32, ..d }
    } else if contains_spec(line, "End Rune"@) {
        VoidgloomData { end_runes: (d.end_runes + 1) as i32, ..d }
    } else if contains_spec(line, "Handy Blood Chalice"@) {
        VoidgloomData { handy_blood_chalices: (d.handy_blood_chalices + 1) as i32, ..d }
    } else if contains_spec(line, "Sinful Dice"@) {
        VoidgloomData { sinful_dices: (d.sinful_dices + 1) as i32, ..d }
    } else if contains_spec(line, "Exceedingly Rare Ender Artifact Upgrader"@) {
        VoidgloomData { artifact_upgraders: (d.artifact_upgraders + 1) as i32, ..d }
    } else if contains_spec(line, "Etherwarp Merger"@) {
        VoidgloomData { etherwarp_mergers: (d.etherwarp_mergers + 1) as i32, ..d }
    } else if contains_spec(line, "Void Conqueror Enderman Skin"@) {
        VoidgloomData { void_conqueror_skins: (d.void_conqueror_skins + 1) as i32, ..d }
    } else if contains_spec(line, "Judgement Core"@) {
        VoidgloomData { judgement_cores: (d.judgement_cores + 1) as i32, ..d }
    } else if contains_spec(line, "Enchant Rune"@) {
        VoidgloomData { enchant_runes: (d.enchant_runes + 1) as i32, ..d }
    } else if contains_spec(line, "Ender Slayer VII"@) {
        VoidgloomData { ender_slayer_tier_sevens: (d.ender_slayer_tier_sevens + 1) as i32, ..d }
    } else {
        d
    }
}

/// Counts the drop or boss completion a chat line announces into both the
/// session and the global counters.
pub fn parse_log_line(
    session_data: &mut VoidgloomData,
    global_data: &mut VoidgloomData,
    added_log_message: &str,
)
    requires
        old(session_data).counters_ok(),
        old(global_data).counters_ok(),
    ensures
        *final(session_data) == data_update(*old(session_data), added_log_message@),
        *final(global_data) == data_update(*old(global_data), added_log_message@),
{
    let line = chars_vec(added_log_message);
    let c_slayer = contains_chars(&line, &chars_vec("SLAYER QUEST COMPLETE!"));
    let c_poison = contains_chars(&line, &chars_vec("Twilight Arrow Poison"));
    let c_endersnake = contains_chars(&line, &chars_vec("Endersnake Rune"));
    proof {
        reveal_strlit("DROP!  ");
    }
    let collapsed = replace_chars(
        &line,
        &chars_vec("DROP!  "),
        &chars_vec("DROP! "),
    );
    let c_eye = contains_chars(&collapsed, &chars_vec("DROP! (Summoning Eye)")) && (
    !contains_chars(&line, &chars_vec("RARE DROP!")) || (contains_chars(
        &line,
        &chars_vec("VERY RARE DROP!"),
    ) || contains_chars(&line, &chars_vec("CRAZY RARE DROP!"))));
    let c_mana = contains_chars(&line, &chars_vec("Mana Steal I"));
    let c_tuner = contains_chars(&line, &chars_vec("Transmission Tuner"));
    let c_atom = contains_chars(&line, &chars_vec("Null Atom"));
    let c_hazmat = contains_chars(&line, &chars_vec("Hazmat Enderman"));
    let c_espresso = contains_chars(&line, &chars_vec("Pocket Espresso Machine"));
    let c_smarty = contains_chars(&line, &chars_vec("Smarty Pants I"));
    let c_endrune = contains_chars(&line, &chars_vec("End Rune"));
    let c_chalice = contains_chars(&line, &chars_vec("Handy Blood Chalice"));
    let c_dice = contains_chars(&line, &chars_vec("Sinful Dice"));
    let c_upgrader = contains_chars(
        &line,
        &chars_vec("Exceedingly Rare Ender Artifact Upgrader"),
    );
    let c_merger = contains_chars(&line, &chars_vec("Etherwarp Merger"));
    let c_skin = contains_chars(&line, &chars_vec("Void Conqueror Enderman Skin"));
    let c_core = contains_chars(&line, &chars_vec("Judgement Core"));
    let c_enchant = contains_chars(&line, &chars_vec("Enchant Rune"));
    let c_slayer7 = contains_chars(&line, &chars_vec("Ender Slayer VII"));
    if c_slayer {
        session_data.bosses_done = session_data.bosses_done + 1;
        global_data.bosses_done = global_data.bosses_done + 1;
    } else if c_poison {
        session_data.twilight_arrow_poisons = session_data.twilight_arrow_poisons + 1;
        global_data.twilight_arrow_poisons = global_data.twilight_arrow_poisons + 1;
    } else if c_endersnake {
        session_data.endersnake_runes = session_data.endersnake_runes + 1;
        global_data.endersnake_runes = global_data.endersnake_runes + 1;
    } else if c_eye {
        session_data.summoning_eyes = session_data.summoning_eyes + 1;
        global_data.summoning_eyes = global_data.summoning_eyes + 1;
    } else if c_mana {
        session_data.mana_steals = session_data.mana_steals + 1;
        global_data.mana_steals = global_data.mana_steals + 1;
    } else if c_tuner {
        session_data.transmission_tuners = session_data.transmission_tuners + 1;
        global_data.transmission_tuners = global_data.transmission_tuners + 1;
    } else if c_atom {
        session_data.null_atoms = session_data.null_atoms + 1;
        global_data.null_atoms = global_data.null_atoms + 1;
    } else if c_hazmat {
        session_data.hazmat_endermans = session_data.hazmat_endermans + 1;
        global_data.hazmat_endermans = global_data.hazmat_endermans + 1;
    } else if c_espresso {
        session_data.espressos = session_data.espressos + 1;
        global_data.espressos = global_data.espressos + 1;
    } else if c_smarty {
        session_data.smarty_pants = session_data.smarty_pants + 1;
        global_data.smarty_pants = global_data.smarty_pants + 1;
    } else if c_endrune {
        session_data.end_runes = session_data.end_runes + 1;
        global_data.end_runes = global_data.end_runes + 1;
    } else if c_chalice {
        session_data.handy_blood_chalices = session_data.handy_blood_chalices + 1;
        global_data.handy_blood_chalices = global_data.handy_blood_chalices + 1;
    } else if c_dice {
        session_data.sinful_dices = session_data.sinful_dices + 1;
        global_data.sinful_dices = global_data.sinful_dices + 1;
    } else if c_upgrader {
        session_data.artifact_upgraders = session_data.artifact_upgraders + 1;
        global_data.artifact_upgraders = global_data.artifact_upgraders + 1;
    } else if c_merger {
        session_data.etherwarp_mergers = session_data.etherwarp_mergers + 1;
        global_data.etherwarp_mergers = global_data.etherwarp_mergers + 1;
    } else if c_skin {
        session_data.void_conqueror_skins = session_data.void_conqueror_skins + 1;
        global_data.void_conqueror_skins = global_data.void_conqueror_skins + 1;
    } else if c_core {
        session_data.judgement_cores = session_data.judgement_cores + 1;
        global_data.judgement_cores = global_data.judgement_cores + 1;
    } else if c_enchant {
        session_data.enchant_runes = session_data.enchant_runes + 1;
        global_data.enchant_runes = global_data.enchant_runes + 1;
    } else if c_slayer7 {
        session_data.ender_slayer_tier_sevens = session_data.ender_slayer_tier_sevens + 1;
        global_data.ender_slayer_tier_sevens = global_data.ender_slayer_tier_sevens + 1;
    }
}

/// Whether the watcher should react to the line at all: no private chat,
/// and either a quest completion or some DROP! announcement.
pub open spec fn tracked_log_line_spec(line: Seq<char>) -> bool {
    &&& !contains_spec(line, seq!['\u{a7}', '7', ':'])
    &&& !contains_spec(line, seq!['\u{a7}', 'f', ':'])
    &&& !contains_spec(line, "To"@)
    &&& !contains_spec(line, "From"@)
    &&& (contains_spec(line, "SLAYER QUEST COMPLETE!"@) || contains_spec(
        replace_spec(line, "DROP!  "@, "DROP! "@),
        "DROP! "@,
    ))
}

/// Whether the watcher should react to the line at all.
pub fn is_tracked_log_line(added_log_message: &str) -> (r: bool)
    ensures
        r == tracked_log_line_spec(added_log_message@),
{
    let line = chars_vec(added_log_message);
    let mut gray: Vec<char> = Vec::new();
    gray.push('\u{a7}');
    gray.push('7');
    gray.push(':');
    let mut white: Vec<char> = Vec::new();
    white.push('\u{a7}');
    white.push('f');
    white.push(':');
    proof {
        assert(gray@ =~= seq!['\u{a7}', '7', ':']);
        assert(white@ =~= seq!['\u{a7}', 'f', ':']);
        reveal_strlit("DROP!  ");
    }
    let collapsed = replace_chars(
        &line,
        &chars_vec("DROP!  "),
        &chars_vec("DROP! "),
    );
    !contains_chars(&line, &gray) && !contains_chars(&line, &white) && !contains_chars(
        &line,
        &chars_vec("To"),
    ) && !contains_chars(&line, &chars_vec("From")) && (contains_chars(
        &line,
        &chars_vec("SLAYER QUEST COMPLETE!"),
    ) || contains_chars(&collapsed, &chars_vec("DROP! ")))
}

/// Whether the drop announcement is worth copying to the clipboard: a
/// rare-or-better drop that is not one of the common or separately
/// tracked ones.
pub open spec fn copy_worthy_line_spec(line: Seq<char>) -> bool {
    &&& (contains_spec(line, "RARE DROP!"@) || contains_spec(line, "INSANE DROP!"@)
        || contains_spec(line, "PET DROP!"@))
    &&& !contains_spec(line, "Enchanted Ender Pearl"@)
    &&& !contains_spec(line, "Griffin Feather"@)
    &&& !contains_spec(line, "Chimera"@)
}

/// Whether the drop announcement is worth copying to the clipboard.
pub fn is_copy_worthy_line(added_log_message: &str) -> (r: bool)
    ensures
        r == copy_worthy_line_spec(added_log_message@),
{
    let line = chars_vec(added_log_message);
    (contains_chars(&line, &chars_vec("RARE DROP!")) || contains_chars(
        &line,
        &chars_vec("INSANE DROP!"),
    ) || contains_chars(&line, &chars_vec("PET DROP!"))) && !contains_chars(
        &line,
        &chars_vec("Enchanted Ender Pearl"),
    ) && !contains_chars(&line, &chars_vec("Griffin Feather")) && !contains_chars(
        &line,
        &chars_vec("Chimera"),
    )
}

/// The absolute difference of two durations in nanoseconds.
pub fn duration_diff(duration1: u128, duration2: u128) -> (r: u128)
    ensures
        duration1 > duration2 ==> r == duration1 - duration2,
        duration1 <= duration2 ==> r == duration2 - duration1,
{
    if duration1 > duration2 {
        return duration1 - duration2;
    }
    duration2 - duration1
}

/// The folder the session files live in.
pub fn get_data_dir() -> (r: String)
    ensures
        r@ == "data"@,
{
    String::from_str("data")
}

/// The file the cross-session counters persist in.
pub fn get_global_data_file() -> (r: String)
    ensures
        r@ == "data/global.json"@,
{
    String::from_str("data/global.json")
}

/// The file the latest session's counters persist in.
pub fn get_last_session_data_file() -> (r: String)
    ensures
        r@ == "data/last_session.json"@,
{
    String::from_str("data/last_session.json")
}

/// The latest game log file under the game folder.
pub fn get_log_file_path(minecraft_dir: &str) -> (r: String)
    ensures
        r@ == minecraft_dir@ + "/logs/latest.log"@,
{
    let base = String::from_str(minecraft_dir);
    base.concat("/logs/latest.log")
}

} // verus!
