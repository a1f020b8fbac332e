# wallerd

A Wayland wallpaper daemon (`wallerd`) and its control client (`wallerctl`).

`src/` is the verified library: the line protocol between client and
daemon (`client`, `daemon::commands`, `daemon::ipc`), the configuration model
(`config::parser`), socket naming (`socket`), the image views
(`daemon::views`), shader resolution, the compiled-program cache and the
texture and frame bookkeeping (`daemon::renderer`), and the daemon's command
state machine (`daemon::control`), with character-level string and path
operations underneath (`text`, `paths`).

`app/` is the program around it: command lines, the configuration file's
TOML and the JSON of profiles, the control socket, the view threads, OpenGL
through EGL, and the Wayland (layer shell) and winit front ends. One binary
serves both programs: run as `wallerctl` it is the client, under any other
name the daemon, so it is installed as `wallerd` with a link `wallerctl` to
it.
