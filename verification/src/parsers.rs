pub mod our_selector_parser;
pub mod at_rule_prelude;
pub mod font_feature_values_declarations_parser;
pub mod font_feature_values_at_rule_parser;
pub mod keyframe_list_parser;
pub mod nested_rule_parser;
pub mod top_level_rule_parser;
