//! The tools.

pub mod add_rule_to_live_model;
pub mod add_rule_to_lsrules_file;
pub mod apply_lsrules_file_to_live_model;
pub mod backup_harness;
pub mod blocklist_overlays;
pub mod capture_process_traffic;
pub mod create_lsrules_file;
pub mod doctor;
pub mod explain_rule_match;
pub mod export_model_backup;
pub mod find_rules_for_remote;
pub mod get_rules_for_process;
pub mod list_backups;
pub mod list_preferences;
pub mod lsrules_metadata;
pub mod manage_profiles;
pub mod manage_rule_groups;
pub mod prepare_live_model_change;
pub mod read_preference;
pub mod remove_rule_from_live_model;
pub mod remove_rule_from_lsrules_file;
pub mod restore_model_from_file;
pub mod show_restrictions;
pub mod tail_log;
pub mod tail_traffic;
pub mod update_factory_rule_groups;
pub mod update_rule_in_live_model;
pub mod update_rule_in_lsrules_file;
pub mod validate_lsrules;
pub mod warm_sudo;
pub mod write_preference;
