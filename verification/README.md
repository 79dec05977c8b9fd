# Laozhou, the terminal front end

The library under `src/` holds everything between a key press, a frame of the
daemon or a line of its log and what is drawn or done for it: the input line and
its editor, the live tail below a streaming reply, the menus, the commands of the
prompt, the log viewer, sessions, histories and the command line. It works on
plain values. What is to be drawn comes back as a list of steps for the terminal;
what the daemon, the terminal or the clock answered goes in as an argument. Every
function states in its contract what it returns, and the proof functions named
`law_...` state what holds of several of them together.

`app/` performs those steps: it reads keys, files and sockets and writes to the
terminal. The parts of the program behind it (configuration, the store, the
agent, the renderer) are reached through the trait `Host` in `app/host.rs`.

`tests/` runs the library on concrete values.
