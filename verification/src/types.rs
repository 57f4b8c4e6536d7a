pub mod ws_server_events;
