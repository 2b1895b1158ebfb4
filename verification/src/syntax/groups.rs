//! Which kinds of nodes belong together.
use vstd::prelude::*;

use crate::syntax::KindClass;

verus! {

/// The kinds of names, all of them and no others.
pub proof fn lemma_identifier(k: Seq<char>)
    ensures
        KindClass::Identifier.has(k) <==> {
            ||| k == "identifier"@
            ||| k == "type_identifier"@
        },
{
}

/// The kinds of names, `this` and `super`, all of them and no others.
pub proof fn lemma_name_like(k: Seq<char>)
    ensures
        KindClass::NameLike.has(k) <==> {
            ||| k == "identifier"@
            ||| k == "type_identifier"@
            ||| k == "this"@
            ||| k == "super"@
        },
{
}

/// The kinds of comments, all of them and no others.
pub proof fn lemma_comment(k: Seq<char>)
    ensures
        KindClass::Comment.has(k) <==> {
            ||| k == "line_comment"@
            ||| k == "block_comment"@
        },
{
}

/// The kinds of strings, all of them and no others.
pub proof fn lemma_string_like(k: Seq<char>)
    ensures
        KindClass::StringLike.has(k) <==> {
            ||| k == "string_literal"@
            ||| k == "text_block"@
        },
{
}

/// The kinds of jumps, all of them and no others.
pub proof fn lemma_jump(k: Seq<char>)
    ensures
        KindClass::Jump.has(k) <==> {
            ||| k == "break_statement"@
            ||| k == "continue_statement"@
        },
{
}

/// The kinds of parameters, all of them and no others.
pub proof fn lemma_parameter(k: Seq<char>)
    ensures
        KindClass::Parameter.has(k) <==> {
            ||| k == "formal_parameter"@
            ||| k == "spread_parameter"@
        },
{
}

/// The kinds of declarations of types, all of them and no others.
pub proof fn lemma_type_declaration(k: Seq<char>)
    ensures
        KindClass::TypeDeclaration.has(k) <==> {
            ||| k == "class_declaration"@
            ||| k == "interface_declaration"@
            ||| k == "enum_declaration"@
            ||| k == "annotation_type_declaration"@
            ||| k == "record_declaration"@
        },
{
}

/// The kinds of annotations, all of them and no others.
pub proof fn lemma_annotation_kind(k: Seq<char>)
    ensures
        KindClass::AnnotationKind.has(k) <==> {
            ||| k == "marker_annotation"@
            ||| k == "annotation"@
        },
{
}

/// The kinds of accesses to members, all of them and no others.
pub proof fn lemma_member_expression(k: Seq<char>)
    ensures
        KindClass::MemberExpression.has(k) <==> {
            ||| k == "method_invocation"@
            ||| k == "field_access"@
        },
{
}

/// The kinds of blocks, bodies and the program, all of them and no others.
pub proof fn lemma_container(k: Seq<char>)
    ensures
        KindClass::Container.has(k) <==> {
            ||| k == "block"@
            ||| k == "class_body"@
            ||| k == "program"@
        },
{
}

/// The kinds of what ends the way up, all of them and no others.
pub proof fn lemma_location_stop(k: Seq<char>)
    ensures
        KindClass::LocationStop.has(k) <==> {
            ||| k == "block"@
            ||| k == "class_body"@
            ||| k == "program"@
            ||| k == "break_statement"@
            ||| k == "continue_statement"@
        },
{
}

/// The kinds of what ends the way up from an annotation, all of them and no others.
pub proof fn lemma_annotation_stop(k: Seq<char>)
    ensures
        KindClass::AnnotationStop.has(k) <==> {
            ||| k == "ERROR"@
            ||| k == "class_body"@
            ||| k == "block"@
            ||| k == "program"@
        },
{
}

/// The kinds of what statements stand in, all of them and no others.
pub proof fn lemma_statement_scope(k: Seq<char>)
    ensures
        KindClass::StatementScope.has(k) <==> {
            ||| k == "block"@
            ||| k == "switch_block_statement_group"@
            ||| k == "switch_rule"@
            ||| k == "program"@
            ||| k == "method_declaration"@
            ||| k == "constructor_declaration"@
            ||| k == "compact_constructor_declaration"@
            ||| k == "lambda_expression"@
            ||| k == "class_body"@
        },
{
}

/// The kinds of types, all of them and no others.
pub proof fn lemma_type_like(k: Seq<char>)
    ensures
        KindClass::TypeLike.has(k) <==> {
            ||| k == "type_identifier"@
            ||| k == "generic_type"@
            ||| k == "array_type"@
            ||| k == "scoped_type_identifier"@
            ||| k == "integral_type"@
            ||| k == "floating_point_type"@
            ||| k == "boolean_type"@
            ||| k == "void_type"@
            ||| k == "annotated_type"@
        },
{
}

/// The kinds of types and names, all of them and no others.
pub proof fn lemma_type_like_or_identifier(k: Seq<char>)
    ensures
        KindClass::TypeLikeOrIdentifier.has(k) <==> {
            ||| k == "type_identifier"@
            ||| k == "generic_type"@
            ||| k == "array_type"@
            ||| k == "scoped_type_identifier"@
            ||| k == "integral_type"@
            ||| k == "floating_point_type"@
            ||| k == "boolean_type"@
            ||| k == "void_type"@
            ||| k == "annotated_type"@
            ||| k == "identifier"@
        },
{
}

/// The kinds of types that a variable can have, all of them and no others.
pub proof fn lemma_complete_type(k: Seq<char>)
    ensures
        KindClass::CompleteType.has(k) <==> {
            ||| k == "type_identifier"@
            ||| k == "generic_type"@
            ||| k == "array_type"@
            ||| k == "scoped_type_identifier"@
            ||| k == "integral_type"@
            ||| k == "floating_point_type"@
            ||| k == "boolean_type"@
        },
{
}

/// The kinds of declarations of variables, all of them and no others.
pub proof fn lemma_variable_declaration(k: Seq<char>)
    ensures
        KindClass::VariableDeclaration.has(k) <==> {
            ||| k == "local_variable_declaration"@
            ||| k == "field_declaration"@
        },
{
}

/// The kinds of what can begin like a declaration, all of them and no others.
pub proof fn lemma_declaration_like(k: Seq<char>)
    ensures
        KindClass::DeclarationLike.has(k) <==> {
            ||| k == "local_variable_declaration"@
            ||| k == "field_declaration"@
            ||| k == "ERROR"@
            ||| k == "expression_statement"@
        },
{
}

/// The kinds of what can stand before a dot, all of them and no others.
pub proof fn lemma_receiver(k: Seq<char>)
    ensures
        KindClass::Receiver.has(k) <==> {
            ||| k == "method_invocation"@
            ||| k == "object_creation_expression"@
            ||| k == "field_access"@
            ||| k == "identifier"@
            ||| k == "this"@
        },
{
}

/// The kinds of what can stand before a dot, `super` too, all of them and no others.
pub proof fn lemma_receiver_or_super(k: Seq<char>)
    ensures
        KindClass::ReceiverOrSuper.has(k) <==> {
            ||| k == "method_invocation"@
            ||| k == "object_creation_expression"@
            ||| k == "field_access"@
            ||| k == "identifier"@
            ||| k == "this"@
            ||| k == "super"@
        },
{
}

/// The kinds of operations, all of them and no others.
pub proof fn lemma_operand_holder(k: Seq<char>)
    ensures
        KindClass::OperandHolder.has(k) <==> {
            ||| k == "binary_expression"@
            ||| k == "ternary_expression"@
            ||| k == "assignment_expression"@
        },
{
}

/// The kinds of parameters of lambdas, all of them and no others.
pub proof fn lemma_lambda_parameters(k: Seq<char>)
    ensures
        KindClass::LambdaParameters.has(k) <==> {
            ||| k == "identifier"@
            ||| k == "inferred_parameters"@
            ||| k == "formal_parameters"@
        },
{
}

/// The kinds of types in errors, all of them and no others.
pub proof fn lemma_recovered_type(k: Seq<char>)
    ensures
        KindClass::RecoveredType.has(k) <==> {
            ||| k == "generic_type"@
            ||| k == "type_identifier"@
            ||| k == "scoped_type_identifier"@
            ||| k == "array_type"@
        },
{
}

/// The kinds of type arguments, all of them and no others.
pub proof fn lemma_type_argument_list(k: Seq<char>)
    ensures
        KindClass::TypeArgumentList.has(k) <==> {
            ||| k == "type_arguments"@
        },
{
}

/// The kinds of creations, all of them and no others.
pub proof fn lemma_creation(k: Seq<char>)
    ensures
        KindClass::Creation.has(k) <==> {
            ||| k == "object_creation_expression"@
        },
{
}

/// The kinds of methods, classes, the program, all of them and no others.
pub proof fn lemma_method_class_or_program(k: Seq<char>)
    ensures
        KindClass::MethodClassOrProgram.has(k) <==> {
            ||| k == "method_declaration"@
            ||| k == "class_declaration"@
            ||| k == "program"@
        },
{
}

/// The kinds of methods, classes, blocks, all of them and no others.
pub proof fn lemma_method_class_or_block(k: Seq<char>)
    ensures
        KindClass::MethodClassOrBlock.has(k) <==> {
            ||| k == "method_declaration"@
            ||| k == "class_declaration"@
            ||| k == "block"@
        },
{
}

/// The kinds of methods and the program, all of them and no others.
pub proof fn lemma_method_or_program(k: Seq<char>)
    ensures
        KindClass::MethodOrProgram.has(k) <==> {
            ||| k == "method_declaration"@
            ||| k == "program"@
        },
{
}

/// The kinds of code, all of them and no others.
pub proof fn lemma_code_context(k: Seq<char>)
    ensures
        KindClass::CodeContext.has(k) <==> {
            ||| k == "expression_statement"@
            ||| k == "local_variable_declaration"@
            ||| k == "method_invocation"@
            ||| k == "field_access"@
            ||| k == "assignment_expression"@
            ||| k == "return_statement"@
            ||| k == "block"@
        },
{
}

/// The kinds of declarations and the program, all of them and no others.
pub proof fn lemma_declaration_or_program(k: Seq<char>)
    ensures
        KindClass::DeclarationOrProgram.has(k) <==> {
            ||| k == "class_declaration"@
            ||| k == "interface_declaration"@
            ||| k == "enum_declaration"@
            ||| k == "annotation_type_declaration"@
            ||| k == "program"@
        },
{
}

/// The kinds of what stands in brackets, all of them and no others.
pub proof fn lemma_inside_brackets(k: Seq<char>)
    ensures
        KindClass::InsideBrackets.has(k) <==> {
            ||| k == "formal_parameters"@
            ||| k == "argument_list"@
            ||| k == "type_arguments"@
            ||| k == "condition"@
            ||| k == "for_statement"@
            ||| k == "while_statement"@
            ||| k == "catch_clause"@
            ||| k == "parenthesized_expression"@
            ||| k == "array_access"@
            ||| k == "array_initializer"@
        },
{
}

/// The kinds of bodies of types, all of them and no others.
pub proof fn lemma_type_body(k: Seq<char>)
    ensures
        KindClass::TypeBody.has(k) <==> {
            ||| k == "class_body"@
            ||| k == "interface_body"@
            ||| k == "enum_body"@
            ||| k == "enum_body_declarations"@
            ||| k == "annotation_type_body"@
        },
{
}

/// Names and errors are the kinds that do not end the way up to the body of a class.
pub proof fn lemma_neither_name_nor_error(k: Seq<char>)
    ensures
        !KindClass::NeitherNameNorError.has(k) <==> {
            ||| k == "identifier"@
            ||| k == "type_identifier"@
            ||| k == "ERROR"@
        },
{
}

} // verus!
