//! The multiplexing server: domain tables, the holders of served ports and
//! sessions, the control interface of a session, and the manager that
//! waits on all of them and dispatches what arrives.

pub mod domain;
pub mod holder;
pub mod response;
pub mod hipc;
pub mod dispatch;
pub mod steps;
pub mod manager;

pub use self::domain::{bound_elsewhere, bound_names, bound_to, DomainTable, first_names, is_full,
    is_smallest_free, lemma_allocation_in_order, lemma_filter_bound, lemma_filter_ids,
    lemma_filter_no_duplicates, lemma_filter_step, lemma_push_bound, lemma_push_ids,
    lemma_smallest_free_unique, MAX_DOMAIN_OBJECT_ID, other_than};
pub use self::holder::{clone_of, closed_by, converted, create_mitm_server_object_impl,
    create_server_object_impl, detached_and_closed_by, domain_converted, duplicate_of, fresh_in,
    given_up, goes_with, handle_closed_by, held_in, IMitmServerObject, IMitmService, INamedPort,
    IServerObject, IService, left_unconverted, lost_owners, made, made_for,
    MitmServerObjectFactory, MitmServerObjectMaker, name_given_back, NewMitmServerFn, NewServerFn,
    released, ServerHolder, ServerObjectFactory, ServerObjectMaker, session_of, table_renewed,
    WaitHandleType};
pub use self::response::{answer_written, attached_to_domain, carries, covered, emit_response,
    extends, given_own_session, handles_among, laid_out, lemma_passes_advance_alike,
    lemma_planned_failed, lemma_planned_next, lemma_planned_offset_grows, lemma_single_handle,
    lemma_single_pod, lemma_single_word, lemma_take_all_fails, lemma_walk_grows, measure_response,
    Moment, only_taken_from, parameters_taken, parse_parameters, parse_request, plain_or_handles,
    plan_response, plan_session_response, planned_all, planned_next, planned_offset, planned_one,
    planned_size, PROCESS_ID_SIZE, request_untouched, RequestCommandParameter,
    ResponseCommandParameter, serve_command, served, ServerContext, session_planned, take_all,
    take_one, Taking, views_of, write_response, written, written_one, zeroed};
pub use self::hipc::{answer_view, clone_answer, cloned_by, control_answered,
    CONTROL_CLONE_CURRENT_OBJECT, CONTROL_CLONE_CURRENT_OBJECT_EX,
    CONTROL_CONVERT_CURRENT_OBJECT_TO_DOMAIN, CONTROL_COPY_FROM_CURRENT_DOMAIN,
    control_parameters, CONTROL_QUERY_POINTER_BUFFER_SIZE, conversion_answer, forward_cloned_by,
    HipcManager, MITM_PROCESS_INFO_SIZE, MITM_QUERY_SHOULD_MITM, MitmQueryService,
    process_info_of, query_answered, read_process_info, u16_bytes};
pub use self::dispatch::{addressed, addressed_object, answers_request, carries_only, first_on,
    forward_request, forwarded, lemma_clone_serves_same_object,
    lemma_closed_handle_leaves_wait_set, lemma_wait_set_len, lemma_wait_set_members, loop_end,
    loop_step, loop_step_of, LoopStep, none_on, outcome_of, replied, reply_result,
    request_outcome, request_result, RequestOutcome, select_target, send_reply, target_of,
    wait_set};
pub use self::steps::{accepted, adopted, all_disposed, clone_picked_up, closed_in_domain,
    control_response, control_starting, control_written, controlled, controlled_by,
    detached_then_added, dispatched, disposed, future_cleared, intercepted, looked_up, looped,
    made_and_disposed, mitm_service_registered, named_port_registered, port_added,
    request_handled, responded, round_served, rounds_served, service_registered, Serving,
    session_added, session_handled, session_registered, session_served, signal_served, starting};
pub use self::manager::{MAX_OBJECT_COUNT, ServerManager};
