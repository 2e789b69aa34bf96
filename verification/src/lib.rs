//! Type inference core of the Hern language.

pub mod aggregates;
pub mod alike_laws;
pub mod apply;
pub mod arguments;
pub mod associated;
pub mod ast;
pub mod ast_copy;
pub mod ast_rest;
pub mod ast_size;
pub mod ast_view;
pub mod bodies;
pub mod call_parts;
pub mod calls;
pub mod checker;
pub mod collecting;
pub mod collecting_laws;
pub mod convert;
pub mod counter_laws;
pub mod decls;
pub mod def_laws;
pub mod definitions;
pub mod dict_laws;
pub mod dict_names;
pub mod dict_uses;
pub mod dicts;
pub mod dispatch;
pub mod display;
pub mod ends;
pub mod env;
pub mod error;
pub mod exhaust;
pub mod exhaust_laws;
pub mod exprs;
pub mod finish;
pub mod flow;
pub mod form_laws;
pub mod groups;
pub mod impl_laws;
pub mod impl_parts;
pub mod impls;
pub mod items;
pub mod keeps_steps;
pub mod keeps_convert;
pub mod keeps_ty_helpers;
pub mod keeps_schemes;
pub mod keeps_places;
pub mod keeps_pattern_infer;
pub mod keeps_definitions;
pub mod keeps_dicts;
pub mod keeps_dispatch;
pub mod keeps_associated;
pub mod keeps_receiver;
pub mod keeps_finish;
pub mod keeps_ends;
pub mod keeps_call_parts;
pub mod keeps_items;
pub mod keeps_impl_parts;
pub mod keeps_stmt_parts;
pub mod keeps_rec_parts;
pub mod keeps_macro_phase;
pub mod keeps_checker;
pub mod lexical;
pub mod macro_defs;
pub mod macro_phase;
pub mod match_laws;
pub mod messages;
pub mod method_laws;
pub mod op_laws;
pub mod operators;
pub mod pattern_infer;
pub mod pattern_laws;
pub mod patterns;
pub mod places;
pub mod programs;
pub mod receiver;
pub mod receiver_calls;
pub mod rec_parts;
pub mod recovery;
pub mod rows;
pub mod rule_laws;
pub mod scheme_laws;
pub mod schemes;
pub mod scopes;
pub mod self_types;
pub mod settle_laws;
pub mod snippets;
pub mod solutions;
pub mod state;
pub mod statements;
pub mod steps;
pub mod stmt_parts;
pub mod subst;
pub mod tables;
pub mod text;
pub mod ty;
pub mod ty_helpers;
pub mod type_syntax;
pub mod typing;
pub mod unify;
pub mod unify_complete;
pub mod unify_laws;
pub mod use_laws;
pub mod value;
pub mod var_laws;
pub mod vars;
pub mod walkers;
pub mod written_laws;
