# invisible-ptt

A push-to-talk button that nothing else on the computer can see.

The daemon tells a Logitech mouse's own firmware to stop reporting one button
to the operating system, and reads that button over a private channel instead.
While it is held, the daemon holds down a key or unmutes Discord, depending on
the application in the foreground.

`src/` is the library: everything the daemon decides, verified with Verus.

| | |
|---|---|
| `hidpp`, `device`, `run`, `connect` | the HID++ protocol, what is said to the mouse, and setting one up |
| `daemon`, `promises` | the input loop as a state machine, and what it promises |
| `discord`, `json`, `tokens` | Discord's local RPC and its access tokens |
| `config`, `action`, `text` | the settings file, what actions mean, and plain text |
| `icon`, `resource`, `tray` | the icon, the resource file for it, and the menu |
| `startup`, `log`, `platform`, `bytes` | the wait for the mouse, the log, and the rest |

`app/` is the program around it: the mouse, the pipe, the network, the tray
and the files.
